//! Playback speed presets and the colour-river history that the window keeps.

use std::collections::VecDeque;
use std::time::Duration;
use vstd::prelude::*;

verus! {

/// What `Duration::from_millis` returns for `ms`.
pub uninterp spec fn millis_duration(ms: u64) -> Duration;

/// Builds a `Duration` through `Duration::from_millis`. Trusted: the
/// contract only names the result, which is a function of `ms` alone.
#[verifier::external_body]
pub(crate) fn duration_from_millis(ms: u64) -> (d: Duration)
    ensures
        d == millis_duration(ms),
{
    Duration::from_millis(ms)
}

/// Faster presets wait less: the intervals are 250, 66, 16 and 4 ms for
/// presets 0 to 3, and no wait from preset 4 on.
pub proof fn lemma_speed_table(speed: u8)
    ensures
        speed_millis(0) == 250,
        speed_millis(1) == 66,
        speed_millis(2) == 16,
        speed_millis(3) == 4,
        speed >= 4 ==> speed_millis(speed) == 0,
        speed < 4 ==> speed_millis((speed + 1) as u8) < speed_millis(speed),
{
}

/// Tick interval in milliseconds for each speed preset; from preset 4 on
/// there is no wait at all.
pub open spec fn speed_millis(speed: u8) -> u64 {
    if speed == 0 {
        250
    } else if speed == 1 {
        66
    } else if speed == 2 {
        16
    } else if speed == 3 {
        4
    } else {
        0
    }
}

/// The tick interval of a speed preset.
pub fn speed_duration(speed: u8) -> (d: Duration)
    ensures
        d == millis_duration(speed_millis(speed)),
{
    let ms: u64 = match speed {
        0 => 250,
        1 => 66,
        2 => 16,
        3 => 4,
        _ => 0,
    };
    duration_from_millis(ms)
}

/// The label shown for each speed preset.
pub open spec fn speed_label_text(speed: u8) -> Seq<char> {
    if speed == 0 {
        "¼ T/s"@
    } else if speed == 1 {
        "1 T/s"@
    } else if speed == 2 {
        "10 T/s"@
    } else if speed == 3 {
        "100 T/s"@
    } else if speed == 4 {
        "1K T/s"@
    } else {
        "∞"@
    }
}

/// The label of a speed preset.
pub fn speed_label(speed: u8) -> (r: &'static str)
    ensures
        r@ == speed_label_text(speed),
{
    match speed {
        0 => "¼ T/s",
        1 => "1 T/s",
        2 => "10 T/s",
        3 => "100 T/s",
        4 => "1K T/s",
        _ => "∞",
    }
}

/// How many history rows the archived copy keeps at most.
pub const ARCHIVE_ROWS: usize = 20;

/// The stride with which a history of `len` rows is sampled.
pub open spec fn archive_stride(len: nat) -> nat {
    if len / 20 >= 1 {
        len / 20
    } else {
        1
    }
}

/// How many rows an archive of a nonempty `len`-row history keeps: every
/// stride-th row from the first (there are `(len - 1) / stride + 1` of
/// them), at most 20.
pub open spec fn archive_count(len: nat) -> nat {
    let n = ((len - 1) as int / archive_stride(len) as int + 1) as nat;
    if n <= 20 {
        n
    } else {
        20
    }
}

/// The archive of a nonempty history: rows 0, s, 2s, ... (s the stride),
/// at most 20 of them.
pub open spec fn archived(h: Seq<Seq<u32>>) -> Seq<Seq<u32>> {
    Seq::new(archive_count(h.len()), |i: int| h[i * archive_stride(h.len()) as int])
}

/// An archive keeps between 1 and 20 rows, starts with the history's first
/// row, and keeps a history of at most 20 rows whole.
pub proof fn lemma_archive_shape(h: Seq<Seq<u32>>)
    requires
        h.len() > 0,
    ensures
        1 <= archived(h).len() <= 20,
        archived(h)[0] == h[0],
        h.len() <= 20 ==> archived(h) == h,
{
    if h.len() <= 20 {
        assert(archive_stride(h.len()) == 1);
        assert((h.len() - 1) as int / 1int == h.len() - 1);
        assert(archive_count(h.len()) == h.len());
        assert forall|i: int| 0 <= i < h.len() implies archived(h)[i] == h[i] by {
            assert(i * 1 == i);
        }
        assert(archived(h) =~= h);
    }
}

/// A history of 20 rows or more is archived as exactly 20 rows, row `i`
/// of the archive being row `i * (len / 20)` of the history (the stride is
/// the length divided by 20, rounded down); so one of 20 to 39 rows keeps
/// its first 20 rows.
pub proof fn lemma_archive_long(h: Seq<Seq<u32>>)
    requires
        h.len() >= 20,
    ensures
        archived(h).len() == 20,
        forall|i: int| 0 <= i < 20 ==> #[trigger] archived(h)[i] == h[i * (h.len() / 20) as int],
        h.len() < 40 ==> archived(h) == h.take(20),
{
    let len = h.len() as int;
    let s = len / 20;
    assert(s >= 1);
    assert(archive_stride(h.len()) == s);
    assert(19 * s <= len - 1) by (nonlinear_arith)
        requires
            s == len / 20,
            len >= 20,
    ;
    assert((len - 1) / s >= 19) by (nonlinear_arith)
        requires
            19 * s <= len - 1,
            s >= 1,
    ;
    assert(archive_count(h.len()) == 20);
    if len < 40 {
        assert(s == 1);
        assert forall|i: int| 0 <= i < 20 implies archived(h)[i] == h.take(20)[i] by {
            assert(i * 1 == i);
        }
        assert(archived(h) =~= h.take(20));
    }
}

proof fn lemma_sample_in_range(k: int, step: int, len: int)
    requires
        len >= 1,
        step >= 1,
        0 <= k <= (len - 1) / step,
    ensures
        0 <= k * step < len,
{
    assert(0 <= k * step <= ((len - 1) / step) * step) by (nonlinear_arith)
        requires
            0 <= k <= (len - 1) / step,
            step >= 1,
    ;
    assert(((len - 1) / step) * step <= len - 1) by (nonlinear_arith)
        requires
            len >= 1,
            step >= 1,
    ;
}

/// Compresses the current history into `old_history` (a faded copy of at most 20
/// rows sampled evenly from it) and clears the history for a new run. An
/// empty history leaves `old_history` as it was.
pub fn archive_history(history: &mut VecDeque<Vec<u32>>, old_history: &mut VecDeque<Vec<u32>>)
    ensures
        final(history)@.len() == 0,
        old(history)@.len() > 0 ==> final(old_history).deep_view() == archived(
            old(history).deep_view(),
        ),
        old(history)@.len() == 0 ==> final(old_history)@ == old(old_history)@,
{
    let len = history.len();
    if len != 0 {
        let step: usize = if len / 20 >= 1 {
            len / 20
        } else {
            1
        };
        let strided: usize = (len - 1) / step + 1;
        let count: usize = if strided <= ARCHIVE_ROWS {
            strided
        } else {
            ARCHIVE_ROWS
        };
        let ghost h = history.deep_view();
        assert(count == archive_count(len as nat));
        let mut out: VecDeque<Vec<u32>> = VecDeque::new();
        let mut k: usize = 0;
        while k < count
            invariant
                len == history@.len(),
                len >= 1,
                h == history.deep_view(),
                step == archive_stride(len as nat),
                1 <= step,
                count == archive_count(len as nat),
                count <= (len - 1) / (step as int) + 1,
                k <= count,
                out@.len() == k,
                forall|j: int| 0 <= j < k ==> (#[trigger] out@[j]).deep_view() == h[j * step],
            decreases count - k,
        {
            proof {
                lemma_sample_in_range(k as int, step as int, len as int);
            }
            let idx: usize = k * step;
            let row = history[idx].clone();
            assert(row@ =~= history@[idx as int]@);
            assert(row.deep_view() =~= h[idx as int]);
            out.push_back(row);
            k = k + 1;
        }
        proof {
            assert(out.deep_view() =~= archived(h));
        }
        *old_history = out;
    }
    history.clear();
}

} // verus!
