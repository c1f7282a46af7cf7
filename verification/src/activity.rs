//! Change-density scoring of terminal output: how many bytes of a payload a
//! viewer perceives (glyphs and cursor/line controls), skipping SGR colour and
//! OSC runs, and the per-bucket accumulation of those scores.
use vstd::prelude::*;

use crate::cast::{Event, EventCode};

verus! {

/// The escape byte that opens CSI and OSC sequences.
pub const ESC: u8 = 0x1b;

/// Whether a CSI final byte moves the cursor or erases (CUU/CUD/CUF/CUB,
/// CNL/CPL/CHA/CUP, ED/EL, SU/SD, HVP, VPA).
pub open spec fn cursor_final(b: u8) -> bool {
    b == 0x41 || b == 0x42 || b == 0x43 || b == 0x44 || b == 0x45 || b == 0x46 || b == 0x47
        || b == 0x48 || b == 0x4a || b == 0x4b || b == 0x53 || b == 0x54 || b == 0x66 || b
        == 0x64
}

/// Whether a byte can end a CSI sequence (`0x40..=0x7e`).
pub open spec fn csi_final(b: u8) -> bool {
    0x40 <= b && b <= 0x7e
}

/// Whether a C0 control byte moves the cursor or the line (BS, TAB, LF, CR).
pub open spec fn counted_control(b: u8) -> bool {
    b == 0x08 || b == 0x09 || b == 0x0a || b == 0x0d
}

/// The index of the first CSI final byte at or after `j`, or `s.len()`.
pub open spec fn csi_end(s: Seq<u8>, j: int) -> int
    decreases s.len() - j,
{
    if j >= s.len() {
        s.len() as int
    } else if csi_final(s[j]) {
        j
    } else {
        csi_end(s, j + 1)
    }
}

/// The index just past the terminator (BEL or `ESC \`) of an OSC body that
/// starts at `j`, or `s.len()` when it is unterminated.
pub open spec fn osc_end(s: Seq<u8>, j: int) -> int
    decreases s.len() - j,
{
    if j >= s.len() {
        s.len() as int
    } else if s[j] == 0x07 {
        j + 1
    } else if s[j] == ESC && j + 1 < s.len() && s[j + 1] == 0x5c {
        j + 2
    } else {
        osc_end(s, j + 1)
    }
}

/// A CSI body ends at or after where it starts and within the payload, on
/// a final byte when it ends inside it.
pub proof fn lemma_csi_end_bounds(s: Seq<u8>, j: int)
    requires
        0 <= j,
    ensures
        j <= csi_end(s, j) || (j > s.len() && csi_end(s, j) == s.len()),
        csi_end(s, j) <= s.len() || j > s.len(),
        csi_end(s, j) < s.len() ==> csi_final(s[csi_end(s, j)]),
    decreases s.len() - j,
{
    if j < s.len() && !csi_final(s[j]) {
        lemma_csi_end_bounds(s, j + 1);
    }
}

/// An OSC body ends at or after where it starts and within the payload.
pub proof fn lemma_osc_end_bounds(s: Seq<u8>, j: int)
    requires
        0 <= j,
    ensures
        j <= osc_end(s, j) || (j > s.len() && osc_end(s, j) == s.len()),
        osc_end(s, j) <= s.len() || j > s.len(),
    decreases s.len() - j,
{
    if j < s.len() && s[j] != 0x07 && !(s[j] == ESC && j + 1 < s.len() && s[j + 1] == 0x5c) {
        lemma_osc_end_bounds(s, j + 1);
    }
}

/// The change-density score of `s[i..]`: one per printable byte, one per
/// counted control byte, one per cursor-affecting CSI; SGR and other CSI,
/// OSC runs and other two-byte escapes score nothing. An unterminated CSI
/// or a lone trailing `ESC` ends the scan.
pub open spec fn score_from(s: Seq<u8>, i: int) -> nat
    decreases s.len() - i,
{
    if i < 0 || i >= s.len() {
        0
    } else if s[i] == ESC {
        if i + 1 >= s.len() {
            0
        } else if s[i + 1] == 0x5b {
            let j = csi_end(s, i + 2);
            proof {
                lemma_csi_end_bounds(s, i + 2);
            }
            if j >= s.len() {
                0
            } else {
                (if cursor_final(s[j]) {
                    1nat
                } else {
                    0nat
                }) + score_from(s, j + 1)
            }
        } else if s[i + 1] == 0x5d {
            proof {
                lemma_osc_end_bounds(s, i + 2);
            }
            score_from(s, osc_end(s, i + 2))
        } else {
            score_from(s, i + 2)
        }
    } else if s[i] < 0x20 || s[i] == 0x7f {
        (if counted_control(s[i]) {
            1nat
        } else {
            0nat
        }) + score_from(s, i + 1)
    } else {
        1 + score_from(s, i + 1)
    }
}

/// The score of a whole payload.
pub open spec fn payload_score(s: Seq<u8>) -> nat {
    score_from(s, 0)
}

/// No payload scores more than it has bytes.
pub proof fn lemma_score_bounded(s: Seq<u8>, i: int)
    requires
        0 <= i,
    ensures
        i <= s.len() ==> score_from(s, i) <= s.len() - i,
    decreases s.len() - i,
{
    if i < s.len() {
        if s[i] == ESC {
            if i + 1 < s.len() {
                if s[i + 1] == 0x5b {
                    lemma_csi_end_bounds(s, i + 2);
                    let j = csi_end(s, i + 2);
                    if j < s.len() {
                        lemma_score_bounded(s, j + 1);
                    }
                } else if s[i + 1] == 0x5d {
                    lemma_osc_end_bounds(s, i + 2);
                    lemma_score_bounded(s, osc_end(s, i + 2));
                } else {
                    lemma_score_bounded(s, i + 2);
                }
            }
        } else {
            lemma_score_bounded(s, i + 1);
        }
    }
}

/// Whether a CSI final byte moves the cursor or erases, as opposed to
/// restyling (SGR `m`) or toggling a mode.
pub fn is_cursor_affecting_csi(final_byte: u8) -> (r: bool)
    ensures
        r == cursor_final(final_byte),
{
    final_byte == 0x41 || final_byte == 0x42 || final_byte == 0x43 || final_byte == 0x44
        || final_byte == 0x45 || final_byte == 0x46 || final_byte == 0x47 || final_byte == 0x48
        || final_byte == 0x4a || final_byte == 0x4b || final_byte == 0x53 || final_byte == 0x54
        || final_byte == 0x66 || final_byte == 0x64
}

/// The printable / cursor-affecting byte count of one output payload.
pub fn score_payload(bytes: &[u8]) -> (r: u64)
    ensures
        r == payload_score(bytes@),
        r <= bytes@.len(),
{
    let len = bytes.len();
    let mut score: u64 = 0;
    let mut i: usize = 0;
    proof {
        lemma_score_bounded(bytes@, 0);
    }
    while i < len
        invariant
            len == bytes@.len(),
            i <= len,
            score + score_from(bytes@, i as int) == payload_score(bytes@),
            score_from(bytes@, i as int) <= len - i,
            payload_score(bytes@) <= len,
        decreases len - i,
    {
        let b = bytes[i];
        if b == ESC && i + 1 >= len {
            i = len;
        } else if b == ESC {
            let next = bytes[i + 1];
            if next == 0x5b {
                let mut j = i + 2;
                while j < len && !(0x40 <= bytes[j] && bytes[j] <= 0x7e)
                    invariant
                        len == bytes@.len(),
                        i + 2 <= j <= len,
                        csi_end(bytes@, j as int) == csi_end(bytes@, i + 2),
                    decreases len - j,
                {
                    j = j + 1;
                }
                proof {
                    lemma_csi_end_bounds(bytes@, i + 2);
                }
                if j < len {
                    if is_cursor_affecting_csi(bytes[j]) {
                        score = score + 1;
                    }
                    proof {
                        lemma_score_bounded(bytes@, j + 1);
                    }
                    i = j + 1;
                } else {
                    i = len;
                }
            } else if next == 0x5d {
                let mut j = i + 2;
                let mut done = false;
                while j < len && !done
                    invariant
                        len == bytes@.len(),
                        i + 2 <= j <= len,
                        !done ==> osc_end(bytes@, j as int) == osc_end(bytes@, i + 2),
                        done ==> j == osc_end(bytes@, i + 2),
                    decreases len - j,
                {
                    if bytes[j] == 0x07 {
                        j = j + 1;
                        done = true;
                    } else if bytes[j] == ESC && j + 1 < len && bytes[j + 1] == 0x5c {
                        j = j + 2;
                        done = true;
                    } else {
                        j = j + 1;
                    }
                }
                proof {
                    lemma_osc_end_bounds(bytes@, i + 2);
                    lemma_score_bounded(bytes@, j as int);
                }
                i = j;
            } else {
                proof {
                    lemma_score_bounded(bytes@, i + 2);
                }
                i = i + 2;
            }
        } else if b < 0x20 || b == 0x7f {
            if b == 0x08 || b == 0x09 || b == 0x0a || b == 0x0d {
                score = score + 1;
            }
            proof {
                lemma_score_bounded(bytes@, i + 1);
            }
            i = i + 1;
        } else {
            score = score + 1;
            proof {
                lemma_score_bounded(bytes@, i + 1);
            }
            i = i + 1;
        }
    }
    score
}

/// Grid-diff refinement seam with a unit weight: the score is returned
/// unchanged.
pub fn apply_grid_diff_weight(score: u64) -> (r: u64)
    ensures
        r == score,
{
    score
}

/// What one event adds to its bucket: the score of its payload bytes for
/// output, nothing for any other code.
pub open spec fn event_weight(e: Event) -> nat {
    match e.code {
        EventCode::Output => payload_score(vstd::utf8::encode_utf8(e.data@)),
        _ => 0,
    }
}

/// The bucket a slot lands in: clamped to the last of `count` buckets.
pub open spec fn clamp_slot(slot: usize, count: nat) -> int {
    if slot < count {
        slot as int
    } else {
        count - 1
    }
}

/// The exact (unsaturated) total of bucket `b` over the first `n` events.
pub open spec fn bucket_total(
    events: Seq<Event>,
    slots: Seq<usize>,
    count: nat,
    b: int,
    n: int,
) -> nat
    decreases n,
{
    if n <= 0 {
        0
    } else {
        bucket_total(events, slots, count, b, n - 1) + if clamp_slot(slots[n - 1], count) == b {
            event_weight(events[n - 1])
        } else {
            0
        }
    }
}

/// `x` saturated at `u64::MAX`.
pub open spec fn saturate(x: nat) -> u64 {
    if x > u64::MAX {
        u64::MAX
    } else {
        x as u64
    }
}

/// The activity waveform: `count` buckets, each the saturating sum of the
/// scores of the output events whose slot (clamped to the last
/// bucket) is that bucket. `slots[k]` is event `k`'s bucket index before the
/// clamp.
pub fn accumulate_activity(events: &Vec<Event>, slots: &Vec<usize>, count: usize) -> (buckets:
    Vec<u64>)
    requires
        count >= 1,
        slots@.len() == events@.len(),
    ensures
        buckets@.len() == count,
        forall|b: int|
            0 <= b < count ==> #[trigger] buckets@[b] == saturate(
                bucket_total(events@, slots@, count as nat, b, events@.len() as int),
            ),
{
    let mut buckets: Vec<u64> = Vec::new();
    while buckets.len() < count
        invariant
            buckets@.len() <= count,
            forall|b: int| 0 <= b < buckets@.len() ==> #[trigger] buckets@[b] == 0,
        decreases count - buckets@.len(),
    {
        buckets.push(0);
    }
    let last = count - 1;
    let mut k: usize = 0;
    while k < events.len()
        invariant
            count >= 1,
            last == count - 1,
            slots@.len() == events@.len(),
            k <= events@.len(),
            buckets@.len() == count,
            forall|b: int|
                0 <= b < count ==> #[trigger] buckets@[b] == saturate(
                    bucket_total(events@, slots@, count as nat, b, k as int),
                ),
        decreases events@.len() - k,
    {
        let ev = &events[k];
        let idx = if slots[k] < last {
            slots[k]
        } else {
            last
        };
        let w: u64 = match ev.code {
            EventCode::Output => {
                let raw = score_payload(ev.data.as_str().as_bytes());
                apply_grid_diff_weight(raw)
            },
            _ => 0,
        };
        assert(w == event_weight(events@[k as int]));
        let old = buckets[idx];
        buckets[idx] = old.saturating_add(w);
        assert forall|b: int| 0 <= b < count implies #[trigger] buckets@[b] == saturate(
            bucket_total(events@, slots@, count as nat, b, k + 1),
        ) by {
            assert(clamp_slot(slots@[k as int], count as nat) == idx);
        }
        k = k + 1;
    }
    buckets
}

/// The total weight of the first `n` events.
pub open spec fn total_weight(events: Seq<Event>, n: int) -> nat
    decreases n,
{
    if n <= 0 {
        0
    } else {
        total_weight(events, n - 1) + event_weight(events[n - 1])
    }
}

/// The sum of the (unsaturated) totals of the first `m` buckets over the
/// first `n` events.
pub open spec fn buckets_sum(events: Seq<Event>, slots: Seq<usize>, count: nat, m: int, n: int) -> nat
    decreases m,
{
    if m <= 0 {
        0
    } else {
        buckets_sum(events, slots, count, m - 1, n) + bucket_total(events, slots, count, m - 1, n)
    }
}

proof fn lemma_buckets_sum_empty(events: Seq<Event>, slots: Seq<usize>, count: nat, m: int)
    ensures
        buckets_sum(events, slots, count, m, 0) == 0,
    decreases m,
{
    if m > 0 {
        lemma_buckets_sum_empty(events, slots, count, m - 1);
    }
}

proof fn lemma_buckets_sum_step(events: Seq<Event>, slots: Seq<usize>, count: nat, m: int, n: int)
    requires
        1 <= n,
        0 <= m,
    ensures
        buckets_sum(events, slots, count, m, n) == buckets_sum(events, slots, count, m, n - 1) + (
        if 0 <= clamp_slot(slots[n - 1], count) < m {
            event_weight(events[n - 1])
        } else {
            0
        }),
    decreases m,
{
    if m > 0 {
        lemma_buckets_sum_step(events, slots, count, m - 1, n);
    }
}

/// Every output event's weight lands in exactly one bucket: the exact
/// bucket totals add up to the total weight of the events.
pub proof fn lemma_activity_conserves_weight(
    events: Seq<Event>,
    slots: Seq<usize>,
    count: nat,
    n: int,
)
    requires
        count >= 1,
        slots.len() == events.len(),
        0 <= n <= events.len(),
    ensures
        buckets_sum(events, slots, count, count as int, n) == total_weight(events, n),
    decreases n,
{
    if n > 0 {
        lemma_activity_conserves_weight(events, slots, count, n - 1);
        lemma_buckets_sum_step(events, slots, count, count as int, n);
    } else {
        lemma_buckets_sum_empty(events, slots, count, count as int);
    }
}

/// Whether a byte other than `ESC` counts on its own: printable (from 0x20,
/// except DEL) or a counted control byte.
pub open spec fn counted_byte(b: u8) -> bool {
    (b >= 0x20 && b != 0x7f) || counted_control(b)
}

/// The number of counted bytes of `s[i..]`.
pub open spec fn plain_from(s: Seq<u8>, i: int) -> nat
    decreases s.len() - i,
{
    if i < 0 || i >= s.len() {
        0
    } else {
        (if counted_byte(s[i]) {
            1nat
        } else {
            0nat
        }) + plain_from(s, i + 1)
    }
}

proof fn lemma_csi_end_shift(p: Seq<u8>, s: Seq<u8>, j: int)
    requires
        0 <= j,
    ensures
        csi_end(p + s, p.len() + j) == p.len() + csi_end(s, j),
    decreases s.len() - j,
{
    let t = p + s;
    if j < s.len() {
        assert(t[p.len() + j] == s[j]);
        if !csi_final(s[j]) {
            lemma_csi_end_shift(p, s, j + 1);
        }
    }
}

proof fn lemma_osc_end_shift(p: Seq<u8>, s: Seq<u8>, j: int)
    requires
        0 <= j,
    ensures
        osc_end(p + s, p.len() + j) == p.len() + osc_end(s, j),
    decreases s.len() - j,
{
    let t = p + s;
    if j < s.len() {
        assert(t[p.len() + j] == s[j]);
        if j + 1 < s.len() {
            assert(t[p.len() + j + 1] == s[j + 1]);
        }
        if s[j] != 0x07 && !(s[j] == ESC && j + 1 < s.len() && s[j + 1] == 0x5c) {
            lemma_osc_end_shift(p, s, j + 1);
        }
    }
}

proof fn lemma_score_shift(p: Seq<u8>, s: Seq<u8>, j: int)
    requires
        0 <= j,
    ensures
        score_from(p + s, p.len() + j) == score_from(s, j),
    decreases s.len() - j,
{
    let t = p + s;
    let k = p.len() + j;
    if j < s.len() {
        assert(t[k] == s[j]);
        if j + 1 < s.len() {
            assert(t[k + 1] == s[j + 1]);
        }
        if s[j] == ESC {
            if j + 1 < s.len() {
                if s[j + 1] == 0x5b {
                    lemma_csi_end_shift(p, s, j + 2);
                    lemma_csi_end_bounds(s, j + 2);
                    let e = csi_end(s, j + 2);
                    if e < s.len() {
                        assert(t[p.len() + e] == s[e]);
                        lemma_score_shift(p, s, e + 1);
                    }
                } else if s[j + 1] == 0x5d {
                    lemma_osc_end_shift(p, s, j + 2);
                    lemma_osc_end_bounds(s, j + 2);
                    lemma_score_shift(p, s, osc_end(s, j + 2));
                } else {
                    lemma_score_shift(p, s, j + 2);
                }
            }
        } else {
            lemma_score_shift(p, s, j + 1);
        }
    }
}

proof fn lemma_plain_prefix_from(a: Seq<u8>, b: Seq<u8>, i: int)
    requires
        0 <= i <= a.len(),
        forall|k: int| 0 <= k < a.len() ==> #[trigger] a[k] != ESC,
    ensures
        score_from(a + b, i) == plain_from(a, i) + score_from(b, 0),
    decreases a.len() - i,
{
    if i < a.len() {
        assert((a + b)[i] == a[i]);
        lemma_plain_prefix_from(a, b, i + 1);
    } else {
        lemma_score_shift(a, b, 0);
    }
}

/// A payload without `ESC` scores its counted bytes (printable bytes and
/// BS, TAB, LF, CR), and scoring is additive after such a prefix: the score
/// of `a` followed by `b` is the score of `a` plus the score of `b`.
pub proof fn lemma_plain_prefix_additive(a: Seq<u8>, b: Seq<u8>)
    requires
        forall|k: int| 0 <= k < a.len() ==> #[trigger] a[k] != ESC,
    ensures
        payload_score(a) == plain_from(a, 0),
        payload_score(a + b) == payload_score(a) + payload_score(b),
{
    lemma_plain_prefix_from(a, b, 0);
    lemma_plain_prefix_from(a, Seq::empty(), 0);
    assert(a + Seq::<u8>::empty() =~= a);
}

} // verus!
