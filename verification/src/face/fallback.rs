//! Which stretches of a run go to the fallback face.
//!
//! The primary face shapes the whole run first. Every cluster it returned as
//! `.notdef` is missing. Emoji glue (joiners, variation selectors, skin tone
//! modifiers, keycap and tag characters) has no glyph of its own: the shaper
//! hides it in the primary face, so it never shows up as missing, yet it must
//! travel with the emoji next to it or the sequence falls apart. The spans
//! below widen the missing clusters over adjacent glue so `family`, `flag`,
//! and `keycap` sequences reach the fallback face whole.

use std::ops::Range;
use vstd::prelude::*;

verus! {

/// The combining enclosing keycap. Its base (`1`, `#`, `*`) is in every text
/// face, so the base is pulled into the fallback span with it.
pub const KEYCAP: char = '\u{20E3}';

/// Variation selector 16 asks for emoji presentation. A text face may own
/// the base character, but the writer asked for the emoji, so the base goes
/// to the fallback face with the selector.
pub const EMOJI_PRESENTATION: char = '\u{FE0F}';

/// A character that attaches to the emoji before or after it: the zero
/// width joiner, the two variation selectors, the keycap, the tag characters
/// and the skin tone modifiers.
pub open spec fn glue(c: char) -> bool {
    let v = c as u32;
    ||| v == 0x200D
    ||| v == 0xFE0E
    ||| v == 0xFE0F
    ||| v == 0x20E3
    ||| 0xE0020 <= v <= 0xE007F
    ||| 0x1F3FB <= v <= 0x1F3FF
}

/// A character that attaches to the emoji before or after it.
pub fn is_glue(c: char) -> (r: bool)
    ensures
        r == glue(c),
{
    let v = c as u32;
    v == 0x200D || v == 0xFE0E || v == 0xFE0F || v == 0x20E3 || (0xE0020 <= v && v <= 0xE007F)
        || (0x1F3FB <= v && v <= 0x1F3FF)
}

/// One stretch of the run and which face draws it.
#[derive(Debug, PartialEq, Eq)]
pub struct Segment {
    pub range: Range<usize>,
    pub fallback: bool,
}

/// The least cluster offset above `start` in `clusters`, or `cap` when none
/// lies below `cap`.
pub open spec fn next_cluster(clusters: Seq<u32>, start: int, cap: int) -> int
    decreases clusters.len(),
{
    if clusters.len() == 0 {
        cap
    } else {
        let r = next_cluster(clusters.drop_last(), start, cap);
        let c = clusters.last() as int;
        if start < c && c < r {
            c
        } else {
            r
        }
    }
}

/// `start` is the offset of a missing cluster that has bytes before the next
/// cluster (or the end of the text).
pub open spec fn missing_start(text_len: int, clusters: Seq<u32>, missing: Seq<u32>, start: int) -> bool {
    &&& exists|k: int| 0 <= k < missing.len() && missing[k] as int == start
    &&& start < next_cluster(clusters, start, text_len)
}

pub open spec fn starts_increase(ranges: Seq<Range<usize>>) -> bool {
    forall|i: int, j: int|
        0 <= i < j < ranges.len() ==> #[trigger] ranges[i].start < #[trigger] ranges[j].start
}

/// `ranges` are the byte ranges of the missing clusters, each from its
/// offset up to the next cluster (or the end of the text), in increasing
/// order, once each; a missing offset with nothing after it gives no range.
pub open spec fn missing_ranges_spec(
    text_len: int,
    clusters: Seq<u32>,
    missing: Seq<u32>,
    ranges: Seq<Range<usize>>,
) -> bool {
    &&& starts_increase(ranges)
    &&& forall|i: int|
        #![trigger ranges[i]]
        0 <= i < ranges.len() ==> {
            &&& ranges[i].end == next_cluster(clusters, ranges[i].start as int, text_len)
            &&& missing_start(text_len, clusters, missing, ranges[i].start as int)
        }
    &&& forall|start: int|
        #[trigger] missing_start(text_len, clusters, missing, start) ==> exists|i: int|
            0 <= i < ranges.len() && ranges[i].start == start
}

proof fn lemma_next_cluster_bound(clusters: Seq<u32>, start: int, cap: int)
    ensures
        next_cluster(clusters, start, cap) <= cap,
    decreases clusters.len(),
{
    if clusters.len() > 0 {
        lemma_next_cluster_bound(clusters.drop_last(), start, cap);
    }
}

/// The least cluster above `start`, capped at `cap`.
fn next_cluster_exec(clusters: &[u32], start: usize, cap: usize) -> (r: usize)
    ensures
        r == next_cluster(clusters@, start as int, cap as int),
        r <= cap,
{
    let mut best = cap;
    let mut i: usize = 0;
    while i < clusters.len()
        invariant
            i <= clusters@.len(),
            best == next_cluster(clusters@.take(i as int), start as int, cap as int),
            best <= cap,
        decreases clusters@.len() - i,
    {
        let c = clusters[i] as usize;
        assert(clusters@.take(i + 1).drop_last() =~= clusters@.take(i as int));
        if start < c && c < best {
            best = c;
        }
        i = i + 1;
    }
    assert(clusters@.take(clusters@.len() as int) =~= clusters@);
    best
}

/// The least missing start at or above `lo`, with its end.
fn least_missing_from(text_len: usize, clusters: &[u32], missing: &[u32], lo: usize) -> (r: Option<(usize, usize)>)
    ensures
        r matches Some((s, e)) ==> {
            &&& lo <= s
            &&& e == next_cluster(clusters@, s as int, text_len as int)
            &&& missing_start(text_len as int, clusters@, missing@, s as int)
            &&& forall|c: int| lo <= c < s ==> !#[trigger] missing_start(text_len as int, clusters@, missing@, c)
        },
        r is None ==> forall|c: int| lo <= c ==> !#[trigger] missing_start(text_len as int, clusters@, missing@, c),
{
    let mut best: Option<(usize, usize)> = None;
    let mut k: usize = 0;
    while k < missing.len()
        invariant
            k <= missing@.len(),
            best matches Some((s, e)) ==> {
                &&& lo <= s
                &&& e == next_cluster(clusters@, s as int, text_len as int)
                &&& missing_start(text_len as int, clusters@, missing@, s as int)
                &&& forall|kk: int|
                    0 <= kk < k && lo <= missing@[kk] && missing@[kk] < next_cluster(clusters@, missing@[kk] as int, text_len as int)
                        ==> s <= #[trigger] missing@[kk]
            },
            best is None ==> forall|kk: int|
                0 <= kk < k && lo <= #[trigger] missing@[kk] ==> missing@[kk] >= next_cluster(clusters@, missing@[kk] as int, text_len as int),
        decreases missing@.len() - k,
    {
        let s = missing[k] as usize;
        let better = match best {
            Some((b, _)) => s < b,
            None => true,
        };
        if lo <= s && better {
            let e = next_cluster_exec(clusters, s, text_len);
            if s < e {
                assert(missing@[k as int] as int == s as int);
                best = Some((s, e));
            }
        }
        k = k + 1;
    }
    match best {
        Some((s, e)) => {
            assert forall|c: int| lo <= c < s implies !#[trigger] missing_start(text_len as int, clusters@, missing@, c) by {
                if missing_start(text_len as int, clusters@, missing@, c) {
                    let kk = choose|kk: int| 0 <= kk < missing@.len() && missing@[kk] as int == c;
                    assert(s <= missing@[kk]);
                }
            }
        }
        None => {
            assert forall|c: int| lo <= c implies !#[trigger] missing_start(text_len as int, clusters@, missing@, c) by {
                if missing_start(text_len as int, clusters@, missing@, c) {
                    let kk = choose|kk: int| 0 <= kk < missing@.len() && missing@[kk] as int == c;
                    assert(missing@[kk] >= next_cluster(clusters@, missing@[kk] as int, text_len as int));
                }
            }
        }
    }
    best
}

/// Byte ranges the primary face returned `.notdef` for, from the clusters of
/// its shaped buffer. `clusters` are the byte offsets of every glyph in
/// buffer order; `missing` are the offsets of the `.notdef` glyphs.
pub fn missing_ranges(text_len: usize, clusters: &[u32], missing: &[u32]) -> (r: Vec<Range<usize>>)
    ensures
        missing_ranges_spec(text_len as int, clusters@, missing@, r@),
{
    let mut ranges: Vec<Range<usize>> = Vec::new();
    let mut lo: usize = 0;
    loop
        invariant
            lo <= text_len,
            starts_increase(ranges@),
            forall|i: int| 0 <= i < ranges@.len() ==> #[trigger] ranges@[i].start < lo,
            forall|i: int|
                #![trigger ranges@[i]]
                0 <= i < ranges@.len() ==> {
                    &&& ranges@[i].end == next_cluster(clusters@, ranges@[i].start as int, text_len as int)
                    &&& missing_start(text_len as int, clusters@, missing@, ranges@[i].start as int)
                },
            forall|start: int|
                start < lo && #[trigger] missing_start(text_len as int, clusters@, missing@, start) ==> exists|i: int|
                    0 <= i < ranges@.len() && ranges@[i].start == start,
        ensures
            missing_ranges_spec(text_len as int, clusters@, missing@, ranges@),
        decreases text_len - lo,
    {
        match least_missing_from(text_len, clusters, missing, lo) {
            None => {
                assert forall|start: int| #[trigger] missing_start(text_len as int, clusters@, missing@, start)
                    implies exists|i: int| 0 <= i < ranges@.len() && ranges@[i].start == start by {
                    if start >= lo {
                        assert(!missing_start(text_len as int, clusters@, missing@, start));
                    }
                }
                break;
            }
            Some((s, e)) => {
                let ghost prev = ranges@;
                proof {
                    lemma_next_cluster_bound(clusters@, s as int, text_len as int);
                }
                ranges.push(Range { start: s, end: e });
                assert(ranges@[prev.len() as int].start == s);
                assert forall|start: int|
                    start < s + 1 && #[trigger] missing_start(text_len as int, clusters@, missing@, start)
                    implies exists|i: int| 0 <= i < ranges@.len() && ranges@[i].start == start by {
                    if start < lo {
                        let i = choose|i: int| 0 <= i < prev.len() && prev[i].start == start;
                        assert(ranges@[i] == prev[i]);
                    } else {
                        assert(start == s);
                    }
                }
                assert forall|i: int, j: int| 0 <= i < j < ranges@.len() implies #[trigger] ranges@[i].start
                    < #[trigger] ranges@[j].start by {
                    assert(ranges@[i] == prev[i]);
                    if j < prev.len() {
                        assert(ranges@[j] == prev[j]);
                    }
                }
                assert forall|i: int|
                    #![trigger ranges@[i]]
                    0 <= i < ranges@.len() implies {
                        &&& ranges@[i].end == next_cluster(clusters@, ranges@[i].start as int, text_len as int)
                        &&& missing_start(text_len as int, clusters@, missing@, ranges@[i].start as int)
                    } by {
                    if i < prev.len() {
                        assert(ranges@[i] == prev[i]);
                    }
                }
                assert forall|i: int| 0 <= i < ranges@.len() implies #[trigger] ranges@[i].start < s + 1 by {
                    if i < prev.len() {
                        assert(ranges@[i] == prev[i]);
                    }
                }
                lo = s + 1;
            }
        }
    }
    ranges
}

/// The nearest character before `i` that is not glue, or -1.
pub open spec fn base_before(chars: Seq<char>, i: int) -> int
    decreases i,
{
    if i <= 0 {
        -1
    } else if !glue(chars[i - 1]) {
        i - 1
    } else {
        base_before(chars, i - 1)
    }
}

/// The widening rules hold at character `i`: glue next to a marked
/// character is marked, and a marked keycap marks its base.
pub open spec fn closed_at(chars: Seq<char>, m: Seq<bool>, i: int) -> bool {
    &&& (glue(chars[i]) && ((i > 0 && m[i - 1]) || (i + 1 < chars.len() && m[i + 1]))) ==> m[i]
    &&& (m[i] && chars[i] == KEYCAP && base_before(chars, i) >= 0) ==> m[base_before(chars, i)]
}

/// `m` marks characters of `chars` and no widening rule adds to it.
pub open spec fn closed_marks(chars: Seq<char>, m: Seq<bool>) -> bool {
    &&& m.len() == chars.len()
    &&& forall|i: int| 0 <= i < chars.len() ==> #[trigger] closed_at(chars, m, i)
}

/// Every mark of `a` is a mark of `b`.
pub open spec fn marks_within(a: Seq<bool>, b: Seq<bool>) -> bool {
    &&& a.len() == b.len()
    &&& forall|i: int| 0 <= i < a.len() && #[trigger] a[i] ==> b[i]
}

/// `m` is `seed` widened over glue: the least set of marks that holds the
/// seed and that the widening rules leave unchanged.
pub open spec fn widened(chars: Seq<char>, seed: Seq<bool>, m: Seq<bool>) -> bool {
    &&& closed_marks(chars, m)
    &&& marks_within(seed, m)
    &&& forall|m2: Seq<bool>|
        #[trigger] closed_marks(chars, m2) && marks_within(seed, m2) ==> marks_within(m, m2)
}

/// Unmarked characters.
pub open spec fn unmarked(m: Seq<bool>) -> nat
    decreases m.len(),
{
    if m.len() == 0 {
        0
    } else {
        unmarked(m.drop_last()) + if m.last() {
            0nat
        } else {
            1nat
        }
    }
}

proof fn lemma_unmarked_shrinks(a: Seq<bool>, b: Seq<bool>, j: int)
    requires
        marks_within(a, b),
        0 <= j < a.len(),
        !a[j],
        b[j],
    ensures
        unmarked(b) < unmarked(a),
    decreases a.len(),
{
    lemma_unmarked_le(a.drop_last(), b.drop_last());
    if j < a.len() - 1 {
        lemma_unmarked_shrinks(a.drop_last(), b.drop_last(), j);
    }
}

proof fn lemma_unmarked_le(a: Seq<bool>, b: Seq<bool>)
    requires
        marks_within(a, b),
    ensures
        unmarked(b) <= unmarked(a),
    decreases a.len(),
{
    if a.len() > 0 {
        lemma_unmarked_le(a.drop_last(), b.drop_last());
    }
}

proof fn lemma_base_found(chars: Seq<char>, i: int, j: int)
    requires
        0 <= j < i <= chars.len(),
        !glue(chars[j]),
        forall|k: int| j < k < i ==> glue(#[trigger] chars[k]),
    ensures
        base_before(chars, i) == j,
    decreases i - j,
{
    if i - 1 > j {
        lemma_base_found(chars, i - 1, j);
    }
}

proof fn lemma_no_base(chars: Seq<char>, i: int)
    requires
        0 <= i <= chars.len(),
        forall|k: int| 0 <= k < i ==> glue(#[trigger] chars[k]),
    ensures
        base_before(chars, i) == -1,
    decreases i,
{
    if i > 0 {
        lemma_no_base(chars, i - 1);
    }
}

/// Marks `i`, which every closed superset of `seed` containing `m` marks too.
proof fn lemma_forced_mark(chars: Seq<char>, seed: Seq<bool>, m: Seq<bool>, i: int)
    requires
        0 <= i < m.len(),
        m.len() == chars.len(),
        forall|m2: Seq<bool>|
            #[trigger] closed_marks(chars, m2) && marks_within(seed, m2) ==> marks_within(m, m2),
        forall|m2: Seq<bool>|
            #[trigger] closed_marks(chars, m2) && marks_within(seed, m2) ==> m2[i],
    ensures
        forall|m2: Seq<bool>|
            #[trigger] closed_marks(chars, m2) && marks_within(seed, m2) ==> marks_within(m.update(i, true), m2),
{
}

/// Glue next to a marked character is marked too, in both directions, until
/// nothing changes. A marked keycap marks the base character before it.
pub fn widen_over_glue(chars: &Vec<char>, marked: &mut Vec<bool>)
    requires
        old(marked)@.len() == chars@.len(),
    ensures
        widened(chars@, old(marked)@, final(marked)@),
{
    let n = chars.len();
    let ghost seed = marked@;
    let ghost cs = chars@;
    loop
        invariant
            n == cs.len(),
            cs == chars@,
            marked@.len() == n,
            marks_within(seed, marked@),
            forall|m2: Seq<bool>|
                #[trigger] closed_marks(cs, m2) && marks_within(seed, m2) ==> marks_within(marked@, m2),
        ensures
            widened(cs, seed, marked@),
        decreases unmarked(marked@),
    {
        let ghost start = marked@;
        let mut changed = false;
        let mut i: usize = 0;
        while i < n
            invariant
                n == cs.len(),
                cs == chars@,
                i <= n,
                marked@.len() == n,
                marks_within(seed, marked@),
                marks_within(start, marked@),
                forall|m2: Seq<bool>|
                    #[trigger] closed_marks(cs, m2) && marks_within(seed, m2) ==> marks_within(marked@, m2),
                !changed ==> marked@ == start,
                changed ==> exists|j: int| 0 <= j < n && !start[j] && #[trigger] marked@[j],
                !changed ==> forall|k: int| 0 <= k < i ==> #[trigger] closed_at(cs, marked@, k),
            decreases n - i,
        {
            let c = chars[i];
            if !marked[i] && is_glue(c) {
                let before = i > 0 && marked[i - 1];
                let after = i + 1 < n && marked[i + 1];
                if before || after {
                    proof {
                        assert forall|m2: Seq<bool>|
                            #[trigger] closed_marks(cs, m2) && marks_within(seed, m2) implies m2[i as int] by {
                            assert(closed_at(cs, m2, i as int));
                            if before {
                                assert(marked@[i - 1]);
                            } else {
                                assert(marked@[i + 1]);
                            }
                        }
                        lemma_forced_mark(cs, seed, marked@, i as int);
                    }
                    let ghost pre = marked@;
                    marked.set(i, true);
                    assert(marked@ == pre.update(i as int, true));
                    assert(!start[i as int] && marked@[i as int]);
                    changed = true;
                }
            }
            if marked[i] && c == KEYCAP {
                let mut j = i;
                let mut found = false;
                while j > 0
                    invariant_except_break
                        j <= i,
                        forall|k: int| j <= k < i ==> glue(#[trigger] cs[k]),
                        !found,
                    invariant
                        i < n,
                        n == cs.len(),
                        cs == chars@,
                    ensures
                        found ==> j < i && !glue(cs[j as int]) && forall|k: int|
                            j < k < i ==> glue(#[trigger] cs[k]),
                        !found ==> forall|k: int| 0 <= k < i ==> glue(#[trigger] cs[k]),
                    decreases j,
                {
                    j = j - 1;
                    if !is_glue(chars[j]) {
                        found = true;
                        break;
                    }
                }
                if found {
                    proof {
                        lemma_base_found(cs, i as int, j as int);
                    }
                    if !marked[j] {
                        proof {
                            assert forall|m2: Seq<bool>|
                                #[trigger] closed_marks(cs, m2) && marks_within(seed, m2) implies m2[j as int] by {
                                assert(closed_at(cs, m2, i as int));
                                assert(marked@[i as int]);
                            }
                            lemma_forced_mark(cs, seed, marked@, j as int);
                        }
                        let ghost pre = marked@;
                        marked.set(j, true);
                        assert(marked@ == pre.update(j as int, true));
                        assert(!start[j as int] && marked@[j as int]);
                        changed = true;
                    }
                } else {
                    proof {
                        lemma_no_base(cs, i as int);
                    }
                }
            }
            assert(!changed ==> closed_at(cs, marked@, i as int));
            i = i + 1;
        }
        if !changed {
            break;
        }
        proof {
            let j = choose|j: int| 0 <= j < n && !start[j] && #[trigger] marked@[j];
            lemma_unmarked_shrinks(start, marked@, j);
        }
    }
}

/// Bytes in the UTF-8 encoding of `c`.
pub open spec fn utf8_width(c: char) -> int {
    let v = c as u32;
    if v <= 0x7F {
        1
    } else if v <= 0x7FF {
        2
    } else if v <= 0xFFFF {
        3
    } else {
        4
    }
}

/// Byte offset of character `i` in the UTF-8 encoding of `chars`.
pub open spec fn byte_offset(chars: Seq<char>, i: int) -> int
    decreases i,
{
    if i <= 0 {
        0
    } else {
        byte_offset(chars, i - 1) + utf8_width(chars[i - 1])
    }
}

/// Bytes in the UTF-8 encoding of `c`.
fn utf8_len(c: char) -> (r: usize)
    ensures
        r == utf8_width(c),
{
    let v = c as u32;
    if v <= 0x7F {
        1
    } else if v <= 0x7FF {
        2
    } else if v <= 0xFFFF {
        3
    } else {
        4
    }
}

proof fn lemma_offset_mono(chars: Seq<char>, a: int, b: int)
    requires
        0 <= a <= b,
    ensures
        byte_offset(chars, a) <= byte_offset(chars, b),
        a < b ==> byte_offset(chars, a) < byte_offset(chars, b),
        byte_offset(chars, a) >= 0,
    decreases b,
{
    if b > 0 {
        if a < b {
            lemma_offset_mono(chars, a, b - 1);
        } else {
            lemma_offset_mono(chars, 0, b - 1);
        }
    }
}

proof fn lemma_offset_first(chars: Seq<char>, i: int)
    requires
        1 <= i <= chars.len(),
    ensures
        byte_offset(chars, i) == utf8_width(chars[0]) + byte_offset(chars.drop_first(), i - 1),
    decreases i,
{
    let d = chars.drop_first();
    if i > 1 {
        lemma_offset_first(chars, i - 1);
        assert(d[i - 2] == chars[i - 1]);
        assert(byte_offset(d, i - 1) == byte_offset(d, i - 2) + utf8_width(d[i - 2]));
    } else {
        assert(byte_offset(d, 0) == 0);
        assert(byte_offset(chars, 0) == 0);
    }
}

/// The UTF-8 encoding of `chars` is `byte_offset(chars, chars.len())` bytes long.
pub proof fn lemma_encoded_len(chars: Seq<char>)
    ensures
        vstd::utf8::encode_utf8(chars).len() == byte_offset(chars, chars.len() as int),
    decreases chars.len(),
{
    if chars.len() > 0 {
        let c = chars[0];
        vstd::utf8::char_is_scalar(c);
        lemma_encoded_len(chars.drop_first());
        lemma_offset_first(chars, chars.len() as int);
    }
}

/// Whether byte `off` lies in one of `missing`.
pub open spec fn in_missing(missing: Seq<Range<usize>>, off: int) -> bool {
    exists|k: int| 0 <= k < missing.len() && missing[k].start <= off < #[trigger] missing[k].end
}

/// Characters that start out on the fallback face: those whose first byte
/// is missing, and a character asking for emoji presentation with the one
/// before it.
pub open spec fn seed_marks(chars: Seq<char>, missing: Seq<Range<usize>>) -> Seq<bool> {
    Seq::new(
        chars.len(),
        |i: int|
            in_missing(missing, byte_offset(chars, i)) || (i > 0 && chars[i] == EMOJI_PRESENTATION)
                || (i + 1 < chars.len() && chars[i + 1] == EMOJI_PRESENTATION),
    )
}

/// Characters that the fallback face draws: the seed widened over glue.
pub open spec fn fallback_marks(chars: Seq<char>, missing: Seq<Range<usize>>) -> Seq<bool> {
    choose|m: Seq<bool>| widened(chars, seed_marks(chars, missing), m)
}

/// The widened marks are unique.
pub proof fn lemma_widened_unique(chars: Seq<char>, seed: Seq<bool>, a: Seq<bool>, b: Seq<bool>)
    requires
        widened(chars, seed, a),
        widened(chars, seed, b),
    ensures
        a == b,
{
    assert(marks_within(a, b));
    assert(marks_within(b, a));
    assert(a =~= b);
}

/// `segs` cut the first `i` characters of `chars` into maximal runs of
/// equal marks, as byte ranges.
pub open spec fn runs_upto(chars: Seq<char>, m: Seq<bool>, segs: Seq<Segment>, i: int) -> bool {
    &&& (i == 0 <==> segs.len() == 0)
    &&& i > 0 ==> {
        &&& segs[0].range.start == 0
        &&& segs.last().range.end == byte_offset(chars, i)
        &&& segs.last().fallback == m[i - 1]
    }
    &&& forall|k: int|
        #![trigger segs[k]]
        0 <= k < segs.len() - 1 ==> {
            &&& segs[k].range.end == segs[k + 1].range.start
            &&& segs[k].fallback != segs[k + 1].fallback
            &&& segs[k].range.end <= segs.last().range.start
        }
    &&& forall|k: int|
        #![trigger segs[k]]
        0 <= k < segs.len() ==> {
            &&& segs[k].range.start < segs[k].range.end
            &&& exists|j: int| 0 <= j < i && #[trigger] byte_offset(chars, j) == segs[k].range.start
        }
    &&& forall|k: int, j: int|
        0 <= k < segs.len() && 0 <= j < i && segs[k].range.start <= #[trigger] byte_offset(chars, j)
            < #[trigger] segs[k].range.end ==> m[j] == segs[k].fallback
}

/// `segs` split `text` between the primary and the fallback face: in order,
/// covering every byte, each a maximal run of characters that the same face
/// draws, the fallback ones being those of [`fallback_marks`].
pub open spec fn segments_spec(text: Seq<char>, missing: Seq<Range<usize>>, segs: Seq<Segment>) -> bool {
    runs_upto(text, fallback_marks(text, missing), segs, text.len() as int)
}

/// The characters of `text`.
pub fn chars_of(text: &str) -> (r: Vec<char>)
    ensures
        r@ == text@,
{
    let mut chars: Vec<char> = Vec::new();
    for c in it: text.chars()
        invariant
            chars@ == it.seq().take(it.index() as int),
    {
        chars.push(c);
    }
    chars
}

/// Split `text` into segments for the primary and the fallback face. The
/// fallback segments cover `missing` widened over emoji glue, plus any
/// character the writer marked for emoji presentation; everything else stays
/// with the primary face. Segments are in order and cover the text.
pub fn segments(text: &str, missing: &[Range<usize>]) -> (r: Vec<Segment>)
    ensures
        segments_spec(text@, missing@, r@),
        r@.len() > 0 ==> r@.last().range.end == text.len(),
{
    let chars = chars_of(text);
    let ghost cs = chars@;
    assert(cs == text@);
    let n = chars.len();
    if n == 0 {
        return Vec::new();
    }
    proof {
        lemma_encoded_len(cs);
    }
    let bytes = text.as_bytes();
    let total = bytes.len();
    assert(total == vstd::utf8::encode_utf8(text@).len());
    let mut offs: Vec<usize> = Vec::new();
    let mut off: usize = 0;
    let mut i: usize = 0;
    while i < n
        invariant
            n == cs.len(),
            cs == chars@,
            total == byte_offset(cs, n as int),
            i <= n,
            offs@.len() == i,
            off == byte_offset(cs, i as int),
            forall|j: int| 0 <= j < i ==> #[trigger] offs@[j] == byte_offset(cs, j),
        decreases n - i,
    {
        offs.push(off);
        proof {
            lemma_offset_mono(cs, i + 1, n as int);
        }
        off = off + utf8_len(chars[i]);
        i = i + 1;
    }
    let ghost seed = seed_marks(cs, missing@);
    let mut marked: Vec<bool> = Vec::new();
    let mut i: usize = 0;
    while i < n
        invariant
            n == cs.len(),
            cs == chars@,
            seed == seed_marks(cs, missing@),
            offs@.len() == n,
            forall|j: int| 0 <= j < n ==> #[trigger] offs@[j] == byte_offset(cs, j),
            i <= n,
            marked@ == seed.take(i as int),
        decreases n - i,
    {
        let o = offs[i];
        let mut hit = false;
        let mut k: usize = 0;
        while k < missing.len()
            invariant
                k <= missing@.len(),
                hit == exists|kk: int| 0 <= kk < k && missing@[kk].start <= o < #[trigger] missing@[kk].end,
            decreases missing@.len() - k,
        {
            if missing[k].start <= o && o < missing[k].end {
                hit = true;
            }
            k = k + 1;
        }
        let m = hit || (i > 0 && chars[i] == EMOJI_PRESENTATION) || (i + 1 < n && chars[i + 1]
            == EMOJI_PRESENTATION);
        marked.push(m);
        assert(marked@ =~= seed.take(i + 1));
        i = i + 1;
    }
    assert(marked@ =~= seed);
    widen_over_glue(&chars, &mut marked);
    let ghost fm = marked@;
    proof {
        let other = fallback_marks(cs, missing@);
        lemma_widened_unique(cs, seed, other, fm);
    }
    let mut out: Vec<Segment> = Vec::new();
    let mut i: usize = 0;
    while i < n
        invariant
            n == cs.len(),
            cs == chars@,
            total == byte_offset(cs, n as int),
            offs@.len() == n,
            forall|j: int| 0 <= j < n ==> #[trigger] offs@[j] == byte_offset(cs, j),
            marked@ == fm,
            fm.len() == n,
            i <= n,
            runs_upto(cs, fm, out@, i as int),
        decreases n - i,
    {
        let o = offs[i];
        proof {
            lemma_offset_mono(cs, i + 1, n as int);
        }
        let end = o + utf8_len(chars[i]);
        let flag = marked[i];
        let k = out.len();
        let ghost prev = out@;
        if k > 0 && out[k - 1].fallback == flag {
            let st = out[k - 1].range.start;
            out.set(k - 1, Segment { range: Range { start: st, end }, fallback: flag });
            proof {
                assert forall|kk: int, j: int|
                    0 <= kk < out@.len() && 0 <= j < i + 1 && out@[kk].range.start <= #[trigger] byte_offset(cs, j)
                        < #[trigger] out@[kk].range.end implies fm[j] == out@[kk].fallback by {
                    if j < i {
                        lemma_offset_mono(cs, j, i as int);
                        if kk < k - 1 {
                            assert(out@[kk] == prev[kk]);
                        } else {
                            assert(prev[kk].range.start <= byte_offset(cs, j) < prev[kk].range.end);
                        }
                    } else {
                        if kk < k - 1 {
                            assert(out@[kk] == prev[kk]);
                            assert(prev[kk].range.end <= prev.last().range.start);
                        }
                    }
                }
                assert forall|kk: int| #![trigger out@[kk]] 0 <= kk < out@.len() implies {
                    &&& out@[kk].range.start < out@[kk].range.end
                    &&& exists|j: int| 0 <= j < i + 1 && #[trigger] byte_offset(cs, j) == out@[kk].range.start
                } by {
                    assert(prev[kk] == prev[kk]);
                    if kk < k - 1 {
                        assert(out@[kk] == prev[kk]);
                    }
                }
                assert forall|kk: int|
                    #![trigger out@[kk]]
                    0 <= kk < out@.len() - 1 implies {
                        &&& out@[kk].range.end == out@[kk + 1].range.start
                        &&& out@[kk].fallback != out@[kk + 1].fallback
                        &&& out@[kk].range.end <= out@.last().range.start
                    } by {
                    assert(prev[kk] == prev[kk]);
                    assert(out@[kk] == prev[kk]);
                    if kk + 1 < k - 1 {
                        assert(out@[kk + 1] == prev[kk + 1]);
                    }
                }
            }
        } else {
            out.push(Segment { range: Range { start: o, end }, fallback: flag });
            proof {
                assert forall|kk: int, j: int|
                    0 <= kk < out@.len() && 0 <= j < i + 1 && out@[kk].range.start <= #[trigger] byte_offset(cs, j)
                        < #[trigger] out@[kk].range.end implies fm[j] == out@[kk].fallback by {
                    if j < i {
                        lemma_offset_mono(cs, j, i as int);
                        if kk < k {
                            assert(out@[kk] == prev[kk]);
                        }
                    } else {
                        if kk < k {
                            assert(out@[kk] == prev[kk]);
                            assert(prev[kk] == prev[kk]);
                            if kk < k - 1 {
                                assert(prev[kk].range.end <= prev.last().range.start);
                            }
                        }
                    }
                }
                assert forall|kk: int| #![trigger out@[kk]] 0 <= kk < out@.len() implies {
                    &&& out@[kk].range.start < out@[kk].range.end
                    &&& exists|j: int| 0 <= j < i + 1 && #[trigger] byte_offset(cs, j) == out@[kk].range.start
                } by {
                    if kk < k {
                        assert(out@[kk] == prev[kk]);
                        assert(prev[kk] == prev[kk]);
                    } else {
                        assert(byte_offset(cs, i as int) == out@[kk].range.start);
                    }
                }
                assert forall|kk: int|
                    #![trigger out@[kk]]
                    0 <= kk < out@.len() - 1 implies {
                        &&& out@[kk].range.end == out@[kk + 1].range.start
                        &&& out@[kk].fallback != out@[kk + 1].fallback
                        &&& out@[kk].range.end <= out@.last().range.start
                    } by {
                    assert(prev[kk] == prev[kk]);
                    assert(out@[kk] == prev[kk]);
                    if kk + 1 < k {
                        assert(out@[kk + 1] == prev[kk + 1]);
                    }
                    if kk < k - 1 {
                        assert(prev[kk].range.end <= prev.last().range.start);
                    }
                }
            }
        }
        i = i + 1;
    }
    out
}

/// Widening is idempotent: widening marks that are already widened adds
/// nothing.
pub proof fn lemma_widen_idempotent(chars: Seq<char>, seed: Seq<bool>, m: Seq<bool>)
    requires
        widened(chars, seed, m),
    ensures
        widened(chars, m, m),
{
}

/// With nothing missing and no request for emoji presentation, no character
/// goes to the fallback face, and a non-empty text is one primary segment
/// covering all of it.
pub proof fn lemma_nothing_missing_one_segment(text: Seq<char>, segs: Seq<Segment>)
    requires
        segments_spec(text, Seq::empty(), segs),
        !text.contains(EMOJI_PRESENTATION),
    ensures
        forall|i: int| 0 <= i < text.len() ==> !#[trigger] fallback_marks(text, Seq::empty())[i],
        text.len() > 0 ==> segs.len() == 1 && segs[0].range.start == 0 && segs[0].range.end
            == byte_offset(text, text.len() as int) && !segs[0].fallback,
        text.len() == 0 ==> segs.len() == 0,
{
    let n = text.len();
    let seed = seed_marks(text, Seq::empty());
    let none = Seq::new(n, |i: int| false);
    assert forall|i: int| 0 <= i < n implies !#[trigger] seed[i] by {
        if i > 0 && text[i] == EMOJI_PRESENTATION {
            assert(text.contains(EMOJI_PRESENTATION));
        }
        if i + 1 < n && text[i + 1] == EMOJI_PRESENTATION {
            assert(text.contains(EMOJI_PRESENTATION));
        }
    }
    assert(closed_marks(text, none));
    assert(widened(text, seed, none));
    let m = fallback_marks(text, Seq::empty());
    lemma_widened_unique(text, seed, m, none);
    if n > 0 {
        if segs.len() > 1 {
            let j = choose|j: int| 0 <= j < n && #[trigger] byte_offset(text, j) == segs[1].range.start;
            lemma_offset_mono(text, j, n as int);
            assert(segs[1].range.start < segs[1].range.end);
            assert(segs[0].fallback != segs[1].fallback);
            assert(segs[0].range.start <= byte_offset(text, 0) < segs[0].range.end);
            assert(segs[1].range.start <= byte_offset(text, j) < segs[1].range.end);
        }
    }
}

/// What the next cluster is: at most `cap`; no cluster lies strictly
/// between `start` and it; and it is `cap` or a cluster above `start`.
proof fn lemma_next_cluster_least(clusters: Seq<u32>, start: int, cap: int)
    ensures
        next_cluster(clusters, start, cap) <= cap,
        forall|k: int|
            0 <= k < clusters.len() ==> !(start < #[trigger] clusters[k] && clusters[k] < next_cluster(
                clusters,
                start,
                cap,
            )),
        next_cluster(clusters, start, cap) == cap || exists|k: int|
            0 <= k < clusters.len() && #[trigger] clusters[k] == next_cluster(clusters, start, cap) && start
                < clusters[k],
    decreases clusters.len(),
{
    if clusters.len() > 0 {
        let init = clusters.drop_last();
        lemma_next_cluster_least(init, start, cap);
        let r = next_cluster(init, start, cap);
        let n = next_cluster(clusters, start, cap);
        assert forall|k: int| 0 <= k < clusters.len() implies !(start < #[trigger] clusters[k] && clusters[k] < n) by {
            if k < clusters.len() - 1 {
                assert(clusters[k] == init[k]);
            }
        }
        if n != cap {
            if n == r {
                let k = choose|k: int| 0 <= k < init.len() && #[trigger] init[k] == r && start < init[k];
                assert(clusters[k] == init[k]);
            } else {
                assert(clusters[clusters.len() - 1] == n);
            }
        }
    }
}

/// Each missing range runs from its cluster up to the least cluster above
/// it, whatever order the shaper's buffer holds the clusters in (a
/// right-to-left run holds them decreasing), or up to the end of the text
/// when no cluster lies above: no cluster falls inside a range, and a range
/// ends at a cluster or at the end of the text.
pub proof fn lemma_missing_range_is_one_cluster(
    text_len: int,
    clusters: Seq<u32>,
    missing: Seq<u32>,
    ranges: Seq<Range<usize>>,
    i: int,
)
    requires
        missing_ranges_spec(text_len, clusters, missing, ranges),
        0 <= i < ranges.len(),
    ensures
        ranges[i].start < ranges[i].end <= text_len,
        exists|k: int| 0 <= k < missing.len() && missing[k] == ranges[i].start,
        forall|k: int|
            0 <= k < clusters.len() ==> !(ranges[i].start < #[trigger] clusters[k] && clusters[k]
                < ranges[i].end),
        ranges[i].end == text_len || exists|k: int|
            0 <= k < clusters.len() && #[trigger] clusters[k] == ranges[i].end,
{
    lemma_next_cluster_least(clusters, ranges[i].start as int, text_len);
}

/// Every tag character (U+E0020 to U+E007F) is glue: the tag letters and
/// cancel tag of a subdivision flag travel with it.
pub proof fn lemma_tag_characters_are_glue(c: char)
    requires
        0xE0020 <= c as u32 <= 0xE007F,
    ensures
        glue(c),
{
}

/// Glue that follows a character drawn by the fallback face, each glue
/// character right after the one before, is drawn by the fallback face too.
pub proof fn lemma_glue_follows_its_base(chars: Seq<char>, seed: Seq<bool>, m: Seq<bool>, i: int, j: int)
    requires
        widened(chars, seed, m),
        0 <= i <= j < chars.len(),
        m[i],
        forall|k: int| i < k <= j ==> glue(#[trigger] chars[k]),
    ensures
        forall|k: int| i <= k <= j ==> #[trigger] m[k],
    decreases j - i,
{
    if j > i {
        lemma_glue_follows_its_base(chars, seed, m, i, j - 1);
        assert(m[j - 1]);
        assert(closed_at(chars, m, j));
    }
}

/// A subdivision flag stays whole: when the base before a run of tag
/// characters goes to the fallback face, so does every tag character.
pub proof fn lemma_tag_sequence_stays_with_its_base(
    chars: Seq<char>,
    seed: Seq<bool>,
    m: Seq<bool>,
    i: int,
    j: int,
)
    requires
        widened(chars, seed, m),
        0 <= i <= j < chars.len(),
        m[i],
        forall|k: int| i < k <= j ==> 0xE0020 <= #[trigger] chars[k] as u32 <= 0xE007F,
    ensures
        forall|k: int| i <= k <= j ==> #[trigger] m[k],
{
    assert forall|k: int| i < k <= j implies glue(#[trigger] chars[k]) by {
        lemma_tag_characters_are_glue(chars[k]);
    }
    lemma_glue_follows_its_base(chars, seed, m, i, j);
}

} // verus!
