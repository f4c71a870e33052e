//! The silences between clips, and the list of pieces that makes up the whole.
//!
//! The time of a clip is its start and its end, in milliseconds.
use vstd::prelude::*;
use crate::tempo::{length_in_range, time_in_range, MAX_MILLIS};

verus! {

/// A silence before the first clip (position zero) or behind the clip with the given number.
#[derive(Debug, Clone, Copy, PartialEq, Eq, Structural)]
pub struct Silence {
    pub position: usize,
    pub millis: i64,
}

/// All times are ones that are handled.
pub open spec fn times_in_range(times: Seq<(i64, i64)>) -> bool {
    forall|i: int|
        0 <= i < times.len() ==> time_in_range((#[trigger] times[i]).0 as int) && time_in_range(
            times[i].1 as int,
        )
}

/// At most one silence: none where its length is not positive.
pub open spec fn silence(position: int, millis: int) -> Seq<Silence> {
    if millis > 0 {
        seq![Silence { position: position as usize, millis: millis as i64 }]
    } else {
        Seq::empty()
    }
}

/// The silences behind the first `k` clips, up to the start of the next clip each.
pub open spec fn gaps(times: Seq<(i64, i64)>, k: nat) -> Seq<Silence>
    decreases k,
{
    if k == 0 {
        Seq::empty()
    } else {
        gaps(times, (k - 1) as nat) + silence(k as int, times[k as int].0 - times[k - 1].1)
    }
}

/// The silences of a recording of `total` milliseconds: up to the first clip, between one clip and
/// the next, and from the last clip to the end.
pub open spec fn silence_plan(times: Seq<(i64, i64)>, total: int) -> Seq<Silence> {
    let n = times.len();
    silence(0, times[0].0 as int) + gaps(times, (n - 1) as nat) + silence(
        n as int,
        total - times[n - 1].1,
    )
}

/// No silence of a recording is longer than this.
pub open spec fn longest(total: int) -> int {
    MAX_MILLIS + if total > MAX_MILLIS {
        total
    } else {
        MAX_MILLIS as int
    }
}

/// The silences of a recording.
pub fn plan_silences(times: &Vec<(i64, i64)>, total: i64) -> (r: Vec<Silence>)
    requires
        times@.len() > 0,
        times_in_range(times@),
        length_in_range(total as int),
    ensures
        r@ == silence_plan(times@, total as int),
        r@.len() <= times@.len() + 1,
        forall|i: int| 0 <= i < r@.len() ==> 0 < (#[trigger] r@[i]).millis <= longest(total as int),
{
    let n: usize = times.len();
    let mut r: Vec<Silence> = Vec::new();
    let first: i64 = times[0].0;
    if first > 0 {
        r.push(Silence { position: 0, millis: first });
    }
    assert(r@ =~= silence(0, times@[0].0 as int) + gaps(times@, 0));
    let mut k: usize = 1;
    while k < n
        invariant
            1 <= k <= n,
            n == times@.len(),
            times_in_range(times@),
            r@ == silence(0, times@[0].0 as int) + gaps(times@, (k - 1) as nat),
            r@.len() <= k,
            forall|i: int|
                0 <= i < r@.len() ==> 0 < (#[trigger] r@[i]).millis <= longest(total as int),
        decreases n - k,
    {
        let gap: i64 = times[k].0 - times[k - 1].1;
        let ghost before = r@;
        if gap > 0 {
            r.push(Silence { position: k, millis: gap });
        }
        assert(r@ =~= before + silence(k as int, gap as int));
        assert(r@ =~= silence(0, times@[0].0 as int) + gaps(times@, k as nat));
        k += 1;
    }
    let rest: i64 = total - times[n - 1].1;
    let ghost before = r@;
    if rest > 0 {
        r.push(Silence { position: n, millis: rest });
    }
    assert(r@ =~= before + silence(n as int, rest as int));
    r
}

// ---------------------------------------------------------------------------
// The list of pieces
// ---------------------------------------------------------------------------

/// One piece of the joined recording.
#[derive(Debug, Clone, Copy, PartialEq, Eq, Structural)]
pub enum Piece {
    /// The silence with this number.
    Silence(usize),
    /// The clip with this number, from the second pass or not.
    Clip { index: usize, corrected: bool },
    /// The silence at the end, made anew.
    Tail,
}

/// The number of the first silence at a position.
pub open spec fn first_at(s: Seq<Silence>, position: int) -> Option<nat>
    decreases s.len(),
{
    if s.len() == 0 {
        None
    } else {
        match first_at(s.drop_last(), position) {
            Some(i) => Some(i),
            None => if s.last().position == position {
                Some((s.len() - 1) as nat)
            } else {
                None
            },
        }
    }
}

/// The silence at a position, if there is one.
pub open spec fn silence_piece(s: Seq<Silence>, position: int) -> Seq<Piece> {
    match first_at(s, position) {
        Some(i) => seq![Piece::Silence(i as usize)],
        None => Seq::empty(),
    }
}

/// The first `k` clips, each with the silence before it.
pub open spec fn clips_with_silences(s: Seq<Silence>, corrected: Seq<bool>, k: nat) -> Seq<Piece>
    decreases k,
{
    if k == 0 {
        Seq::empty()
    } else {
        clips_with_silences(s, corrected, (k - 1) as nat) + silence_piece(s, k - 1) + seq![
            Piece::Clip { index: (k - 1) as usize, corrected: corrected[k - 1] },
        ]
    }
}

/// All pieces in the order in which they are joined: the clips, each with the silence before it, and
/// the silence at the end or, where it was made anew, the new one in its place.
pub open spec fn pieces(s: Seq<Silence>, corrected: Seq<bool>, remade: bool) -> Seq<Piece> {
    clips_with_silences(s, corrected, corrected.len()) + if remade {
        seq![Piece::Tail]
    } else {
        silence_piece(s, corrected.len() as int)
    }
}

/// The number of the first silence at a position.
pub fn find_silence(s: &Vec<Silence>, position: usize) -> (r: Option<usize>)
    ensures
        match r {
            Some(i) => i < s@.len() && first_at(s@, position as int) == Some(i as nat)
                && s@[i as int].position == position,
            None => first_at(s@, position as int) is None,
        },
{
    let mut i: usize = 0;
    assert(s@.take(0) =~= Seq::<Silence>::empty());
    while i < s.len()
        invariant
            i <= s@.len(),
            first_at(s@.take(i as int), position as int) is None,
        decreases s@.len() - i,
    {
        proof {
            assert(s@.take(i + 1).drop_last() =~= s@.take(i as int));
        }
        if s[i].position == position {
            proof {
                assert(first_at(s@.take(i + 1), position as int) == Some(i as nat));
                lemma_first_at_prefix(s@, i + 1, position as int);
            }
            return Some(i);
        }
        i += 1;
    }
    assert(s@.take(i as int) =~= s@);
    None
}

proof fn lemma_first_at_prefix(s: Seq<Silence>, k: int, position: int)
    requires
        0 <= k <= s.len(),
        first_at(s.take(k), position) is Some,
    ensures
        first_at(s, position) == first_at(s.take(k), position),
    decreases s.len(),
{
    if k < s.len() {
        assert(s.drop_last().take(k) =~= s.take(k));
        lemma_first_at_prefix(s.drop_last(), k, position);
    } else {
        assert(s.take(k) =~= s);
    }
}

fn push_silence(out: &mut Vec<Piece>, s: &Vec<Silence>, position: usize)
    ensures
        final(out)@ == old(out)@ + silence_piece(s@, position as int),
{
    match find_silence(s, position) {
        Some(i) => {
            out.push(Piece::Silence(i));
        },
        None => {},
    }
    assert(out@ =~= old(out)@ + silence_piece(s@, position as int));
}

/// All pieces in the order in which they are joined.
pub fn list_pieces(s: &Vec<Silence>, corrected: &Vec<bool>, remade: bool) -> (r: Vec<Piece>)
    ensures
        r@ == pieces(s@, corrected@, remade),
{
    let mut out: Vec<Piece> = Vec::new();
    let n: usize = corrected.len();
    assert(out@ =~= clips_with_silences(s@, corrected@, 0));
    for i in 0..n
        invariant
            n == corrected@.len(),
            out@ == clips_with_silences(s@, corrected@, i as nat),
    {
        push_silence(&mut out, s, i);
        out.push(Piece::Clip { index: i, corrected: corrected[i] });
        assert(out@ =~= clips_with_silences(s@, corrected@, (i + 1) as nat));
    }
    if remade {
        out.push(Piece::Tail);
    } else {
        push_silence(&mut out, s, n);
    }
    assert(out@ =~= pieces(s@, corrected@, remade));
    out
}

// ---------------------------------------------------------------------------
// Laws
// ---------------------------------------------------------------------------

/// The length of all silences together.
pub open spec fn silent_millis(s: Seq<Silence>) -> int
    decreases s.len(),
{
    if s.len() == 0 {
        0
    } else {
        silent_millis(s.drop_last()) + s.last().millis
    }
}

/// The length of the first `k` clips together.
pub open spec fn spoken_millis(times: Seq<(i64, i64)>, k: nat) -> int
    decreases k,
{
    if k == 0 {
        0
    } else {
        spoken_millis(times, (k - 1) as nat) + (times[k - 1].1 - times[k - 1].0)
    }
}

/// The clips lie one behind the other within a recording of `total` milliseconds.
pub open spec fn laid_out(times: Seq<(i64, i64)>, total: int) -> bool {
    &&& times.len() > 0
    &&& 0 <= times[0].0
    &&& forall|i: int| 0 < i < times.len() ==> times[i - 1].1 <= (#[trigger] times[i]).0
    &&& times[times.len() - 1].1 <= total
}

proof fn lemma_silent_millis_add(a: Seq<Silence>, b: Seq<Silence>)
    ensures
        silent_millis(a + b) == silent_millis(a) + silent_millis(b),
    decreases b.len(),
{
    if b.len() == 0 {
        assert(a + b =~= a);
    } else {
        assert((a + b).drop_last() =~= a + b.drop_last());
        lemma_silent_millis_add(a, b.drop_last());
    }
}

proof fn lemma_one_silence(position: int, millis: int)
    requires
        0 <= millis <= i64::MAX,
    ensures
        silent_millis(silence(position, millis)) == millis,
{
    reveal_with_fuel(silent_millis, 2);
    if millis > 0 {
        let s = silence(position, millis);
        assert(s.drop_last() =~= Seq::<Silence>::empty());
    }
}

proof fn lemma_gaps_fill(times: Seq<(i64, i64)>, k: nat)
    requires
        k < times.len(),
        0 <= times[0].0,
        times_in_range(times),
        forall|i: int| 0 < i < times.len() ==> times[i - 1].1 <= (#[trigger] times[i]).0,
    ensures
        times[0].0 + silent_millis(gaps(times, k)) + spoken_millis(times, k + 1)
            == times[k as int].1,
    decreases k,
{
    reveal_with_fuel(spoken_millis, 2);
    if k > 0 {
        lemma_gaps_fill(times, (k - 1) as nat);
        assert(time_in_range(times[k as int].0 as int));
        assert(time_in_range(times[k - 1].1 as int));
        let gap = times[k as int].0 - times[k - 1].1;
        lemma_one_silence(k as int, gap);
        lemma_silent_millis_add(gaps(times, (k - 1) as nat), silence(k as int, gap));
        assert(spoken_millis(times, (k + 1) as nat) == spoken_millis(times, k) + (times[k as int].1
            - times[k as int].0));
    }
}

/// For clips that lie one behind the other, silences and clips together are as long as the
/// recording.
pub proof fn law_silences_and_clips_fill_the_recording(times: Seq<(i64, i64)>, total: int)
    requires
        times_in_range(times),
        length_in_range(total),
        laid_out(times, total),
    ensures
        silent_millis(silence_plan(times, total)) + spoken_millis(times, times.len()) == total,
{
    let n = times.len();
    lemma_gaps_fill(times, (n - 1) as nat);
    let a = silence(0, times[0].0 as int);
    let b = gaps(times, (n - 1) as nat);
    let c = silence(n as int, total - times[n - 1].1);
    assert(time_in_range(times[n - 1].1 as int));
    lemma_one_silence(0, times[0].0 as int);
    lemma_one_silence(n as int, total - times[n - 1].1);
    lemma_silent_millis_add(a + b, c);
    lemma_silent_millis_add(a, b);
}

/// Positions rise, and none lies behind the last clip.
pub open spec fn positions_rise(s: Seq<Silence>, most: int) -> bool {
    &&& forall|i: int, j: int|
        0 <= i < j < s.len() ==> (#[trigger] s[i]).position < (#[trigger] s[j]).position
    &&& forall|i: int| 0 <= i < s.len() ==> (#[trigger] s[i]).position <= most
}

proof fn lemma_gaps_rise(times: Seq<(i64, i64)>, k: nat)
    requires
        k < times.len() <= usize::MAX,
    ensures
        positions_rise(gaps(times, k), k as int),
        forall|i: int| 0 <= i < gaps(times, k).len() ==> 0 < (#[trigger] gaps(times, k)[i]).position,
    decreases k,
{
    if k > 0 {
        lemma_gaps_rise(times, (k - 1) as nat);
    }
}

/// No two silences of a plan stand at one place, and each stands at a place of the recording.
pub proof fn law_silences_have_places_of_their_own(times: Seq<(i64, i64)>, total: int)
    requires
        0 < times.len() <= usize::MAX,
    ensures
        positions_rise(silence_plan(times, total), times.len() as int),
{
    lemma_gaps_rise(times, (times.len() - 1) as nat);
}

/// The nominal length of a piece: that of its silence or of the time of its clip.
pub open spec fn piece_millis(
    p: Piece,
    s: Seq<Silence>,
    times: Seq<(i64, i64)>,
    tail: int,
) -> int {
    match p {
        Piece::Silence(i) => s[i as int].millis as int,
        Piece::Clip { index, .. } => times[index as int].1 - times[index as int].0,
        Piece::Tail => tail,
    }
}

/// The nominal length of a list of pieces.
pub open spec fn pieces_millis(
    p: Seq<Piece>,
    s: Seq<Silence>,
    times: Seq<(i64, i64)>,
    tail: int,
) -> int
    decreases p.len(),
{
    if p.len() == 0 {
        0
    } else {
        pieces_millis(p.drop_last(), s, times, tail) + piece_millis(p.last(), s, times, tail)
    }
}

proof fn lemma_pieces_millis_add(
    a: Seq<Piece>,
    b: Seq<Piece>,
    s: Seq<Silence>,
    times: Seq<(i64, i64)>,
    tail: int,
)
    ensures
        pieces_millis(a + b, s, times, tail) == pieces_millis(a, s, times, tail) + pieces_millis(
            b,
            s,
            times,
            tail,
        ),
    decreases b.len(),
{
    if b.len() == 0 {
        assert(a + b =~= a);
    } else {
        assert((a + b).drop_last() =~= a + b.drop_last());
        lemma_pieces_millis_add(a, b.drop_last(), s, times, tail);
    }
}

proof fn lemma_one_piece(p: Piece, s: Seq<Silence>, times: Seq<(i64, i64)>, tail: int)
    ensures
        pieces_millis(seq![p], s, times, tail) == piece_millis(p, s, times, tail),
{
    reveal_with_fuel(pieces_millis, 2);
    assert(seq![p].drop_last() =~= Seq::<Piece>::empty());
}

/// The length of the silences at one position.
pub open spec fn millis_at(s: Seq<Silence>, position: int) -> int
    decreases s.len(),
{
    if s.len() == 0 {
        0
    } else {
        millis_at(s.drop_last(), position) + if s.last().position == position {
            s.last().millis as int
        } else {
            0
        }
    }
}

/// The length of the silences at the positions from zero to `k`.
pub open spec fn millis_up_to(s: Seq<Silence>, k: nat) -> int
    decreases k,
{
    millis_at(s, k as int) + if k == 0 {
        0
    } else {
        millis_up_to(s, (k - 1) as nat)
    }
}

proof fn lemma_up_to_all(s: Seq<Silence>, k: nat)
    requires
        positions_rise(s, k as int),
    ensures
        millis_up_to(s, k) == silent_millis(s),
    decreases s.len(),
{
    if s.len() == 0 {
        lemma_up_to_empty(s, k);
    } else {
        assert(positions_rise(s.drop_last(), k as int)) by {
            assert forall|i: int| 0 <= i < s.drop_last().len() implies (
            #[trigger] s.drop_last()[i]).position <= k by {
                assert(s.drop_last()[i] == s[i]);
            }
        }
        lemma_up_to_all(s.drop_last(), k);
        lemma_up_to_last(s, k);
        assert(s[s.len() - 1].position <= k);
    }
}

proof fn lemma_up_to_empty(s: Seq<Silence>, k: nat)
    requires
        s.len() == 0,
    ensures
        millis_up_to(s, k) == 0,
    decreases k,
{
    if k > 0 {
        lemma_up_to_empty(s, (k - 1) as nat);
    }
}

proof fn lemma_up_to_last(s: Seq<Silence>, k: nat)
    requires
        s.len() > 0,
    ensures
        millis_up_to(s, k) == millis_up_to(s.drop_last(), k) + if s.last().position <= k {
            s.last().millis as int
        } else {
            0
        },
    decreases k,
{
    if k > 0 {
        lemma_up_to_last(s, (k - 1) as nat);
    }
}

proof fn lemma_first_at(s: Seq<Silence>, position: int, most: int)
    requires
        positions_rise(s, most),
        s.len() <= usize::MAX,
    ensures
        match first_at(s, position) {
            Some(i) => i < s.len() && s[i as int].position == position && millis_at(s, position)
                == s[i as int].millis,
            None => millis_at(s, position) == 0 && forall|i: int|
                0 <= i < s.len() ==> (#[trigger] s[i]).position != position,
        },
    decreases s.len(),
{
    if s.len() > 0 {
        let d = s.drop_last();
        assert(positions_rise(d, most)) by {
            assert forall|i: int| 0 <= i < d.len() implies (#[trigger] d[i]).position <= most by {
                assert(d[i] == s[i]);
            }
        }
        lemma_first_at(d, position, most);
        match first_at(d, position) {
            Some(i) => {
                assert(s[i as int].position < s[s.len() - 1].position);
            },
            None => {
                assert forall|i: int| 0 <= i < s.len() && s.last().position != position implies (
                #[trigger] s[i]).position != position by {
                    if i < d.len() {
                        assert(d[i] == s[i]);
                    }
                }
            },
        }
    }
}

proof fn lemma_silence_piece(
    s: Seq<Silence>,
    position: int,
    most: int,
    times: Seq<(i64, i64)>,
    tail: int,
)
    requires
        positions_rise(s, most),
        s.len() <= usize::MAX,
    ensures
        pieces_millis(silence_piece(s, position), s, times, tail) == millis_at(s, position),
{
    lemma_first_at(s, position, most);
    match first_at(s, position) {
        Some(i) => {
            lemma_one_piece(Piece::Silence(i as usize), s, times, tail);
        },
        None => {},
    }
}

proof fn lemma_clips_millis(
    s: Seq<Silence>,
    corrected: Seq<bool>,
    k: nat,
    times: Seq<(i64, i64)>,
    tail: int,
)
    requires
        positions_rise(s, times.len() as int),
        s.len() <= usize::MAX,
        times.len() <= usize::MAX,
        k <= times.len(),
    ensures
        pieces_millis(clips_with_silences(s, corrected, k), s, times, tail) == spoken_millis(times, k)
            + if k == 0 {
            0
        } else {
            millis_up_to(s, (k - 1) as nat)
        },
    decreases k,
{
    reveal_with_fuel(millis_up_to, 2);
    if k > 0 {
        lemma_clips_millis(s, corrected, (k - 1) as nat, times, tail);
        let head = clips_with_silences(s, corrected, (k - 1) as nat);
        let clip = Piece::Clip { index: (k - 1) as usize, corrected: corrected[k - 1] };
        lemma_one_piece(clip, s, times, tail);
        lemma_pieces_millis_add(head, silence_piece(s, k - 1), s, times, tail);
        lemma_pieces_millis_add(head + silence_piece(s, k - 1), seq![clip], s, times, tail);
        lemma_silence_piece(s, k - 1, times.len() as int, times, tail);
    }
}

/// The numbers of the clips among pieces, in their order.
pub open spec fn clip_numbers(p: Seq<Piece>) -> Seq<usize>
    decreases p.len(),
{
    if p.len() == 0 {
        Seq::empty()
    } else {
        match p.last() {
            Piece::Clip { index, .. } => clip_numbers(p.drop_last()).push(index),
            _ => clip_numbers(p.drop_last()),
        }
    }
}

proof fn lemma_clip_numbers_add(a: Seq<Piece>, b: Seq<Piece>)
    ensures
        clip_numbers(a + b) == clip_numbers(a) + clip_numbers(b),
    decreases b.len(),
{
    if b.len() == 0 {
        assert(a + b =~= a);
        assert(clip_numbers(a + b) =~= clip_numbers(a) + clip_numbers(b));
    } else {
        assert((a + b).drop_last() =~= a + b.drop_last());
        lemma_clip_numbers_add(a, b.drop_last());
        assert(clip_numbers(a + b) =~= clip_numbers(a) + clip_numbers(b));
    }
}

proof fn lemma_no_clip(p: Piece)
    requires
        !(p is Clip),
    ensures
        clip_numbers(seq![p]) == Seq::<usize>::empty(),
{
    reveal_with_fuel(clip_numbers, 2);
    assert(seq![p].drop_last() =~= Seq::<Piece>::empty());
}

proof fn lemma_no_clip_in_silence(s: Seq<Silence>, position: int)
    ensures
        clip_numbers(silence_piece(s, position)) == Seq::<usize>::empty(),
{
    match first_at(s, position) {
        Some(i) => {
            lemma_no_clip(Piece::Silence(i as usize));
        },
        None => {},
    }
}

proof fn lemma_clips_in_order(s: Seq<Silence>, corrected: Seq<bool>, k: nat)
    ensures
        clip_numbers(clips_with_silences(s, corrected, k)) == Seq::new(k, |i: int| i as usize),
    decreases k,
{
    if k > 0 {
        let head = clips_with_silences(s, corrected, (k - 1) as nat);
        let clip = Piece::Clip { index: (k - 1) as usize, corrected: corrected[k - 1] };
        lemma_clips_in_order(s, corrected, (k - 1) as nat);
        let upto = head + silence_piece(s, k - 1);
        lemma_no_clip_in_silence(s, k - 1);
        lemma_clip_numbers_add(head, silence_piece(s, k - 1));
        assert((upto + seq![clip]).drop_last() =~= upto);
        assert(clip_numbers(clips_with_silences(s, corrected, k)) =~= Seq::new(
            k,
            |i: int| i as usize,
        ));
    } else {
        assert(clip_numbers(clips_with_silences(s, corrected, k)) =~= Seq::new(
            k,
            |i: int| i as usize,
        ));
    }
}

/// Every clip is joined once, and in order.
pub proof fn law_every_clip_is_joined_once(s: Seq<Silence>, corrected: Seq<bool>, remade: bool)
    ensures
        clip_numbers(pieces(s, corrected, remade)) == Seq::new(
            corrected.len(),
            |i: int| i as usize,
        ),
{
    let b = clips_with_silences(s, corrected, corrected.len());
    let c = if remade {
        seq![Piece::Tail]
    } else {
        silence_piece(s, corrected.len() as int)
    };
    lemma_clips_in_order(s, corrected, corrected.len());
    lemma_no_clip_in_silence(s, corrected.len() as int);
    lemma_no_clip(Piece::Tail);
    lemma_clip_numbers_add(b, c);
    assert(clip_numbers(pieces(s, corrected, remade)) =~= Seq::new(
        corrected.len(),
        |i: int| i as usize,
    ));
}

/// The nominal length of the joined pieces is that of the recording, for clips that lie one behind
/// the other. Where the silence at the end was made anew, the new one counts in its place.
pub proof fn law_joined_length(
    times: Seq<(i64, i64)>,
    total: int,
    corrected: Seq<bool>,
    remade: bool,
    tail: int,
)
    requires
        times.len() < usize::MAX,
        times_in_range(times),
        length_in_range(total),
        laid_out(times, total),
        corrected.len() == times.len(),
    ensures
        ({
            let s = silence_plan(times, total);
            pieces_millis(pieces(s, corrected, remade), s, times, tail) == if remade {
                times[times.len() - 1].1 + tail
            } else {
                total
            }
        }),
{
    let n = times.len();
    let s = silence_plan(times, total);
    law_silences_have_places_of_their_own(times, total);
    law_silences_and_clips_fill_the_recording(times, total);
    lemma_plan_len(times, (n - 1) as nat);
    lemma_up_to_all(s, n);
    lemma_clips_millis(s, corrected, n, times, tail);
    lemma_silence_piece(s, n as int, n as int, times, tail);
    lemma_millis_at_end(times, total);
    let b = clips_with_silences(s, corrected, n);
    let c = if remade {
        seq![Piece::Tail]
    } else {
        silence_piece(s, n as int)
    };
    lemma_pieces_millis_add(b, c, s, times, tail);
    if remade {
        lemma_one_piece(Piece::Tail, s, times, tail);
    }
}

proof fn lemma_plan_len(times: Seq<(i64, i64)>, k: nat)
    ensures
        gaps(times, k).len() <= k,
    decreases k,
{
    if k > 0 {
        lemma_plan_len(times, (k - 1) as nat);
    }
}

proof fn lemma_millis_at_end(times: Seq<(i64, i64)>, total: int)
    requires
        0 < times.len() < usize::MAX,
        times_in_range(times),
        length_in_range(total),
        laid_out(times, total),
    ensures
        millis_at(silence_plan(times, total), times.len() as int) == total - times[times.len()
            - 1].1,
{
    let n = times.len();
    let s = silence_plan(times, total);
    let a = silence(0, times[0].0 as int);
    let b = gaps(times, (n - 1) as nat);
    let c = silence(n as int, total - times[n - 1].1);
    assert(time_in_range(times[n - 1].1 as int));
    lemma_gaps_rise(times, (n - 1) as nat);
    assert forall|i: int| 0 <= i < (a + b).len() implies (#[trigger] (a + b)[i]).position
        != n by {
        if i >= a.len() {
            assert(b[i - a.len()].position <= n - 1);
        }
    }
    lemma_nothing_at(a + b, n as int);
    if c.len() == 0 {
        assert(s =~= a + b);
    } else {
        assert(s.drop_last() =~= a + b);
        assert(s.last() == c[0]);
    }
}

proof fn lemma_nothing_at(s: Seq<Silence>, position: int)
    requires
        forall|i: int| 0 <= i < s.len() ==> (#[trigger] s[i]).position != position,
    ensures
        millis_at(s, position) == 0,
    decreases s.len(),
{
    if s.len() > 0 {
        assert forall|i: int| 0 <= i < s.drop_last().len() implies (
        #[trigger] s.drop_last()[i]).position != position by {
            assert(s.drop_last()[i] == s[i]);
        }
        assert(s[s.len() - 1].position != position);
        lemma_nothing_at(s.drop_last(), position);
    }
}

/// A silence among pieces stands there once.
pub open spec fn silences_once(p: Seq<Piece>) -> bool {
    forall|i: int, j: int|
        0 <= i < j < p.len() && (#[trigger] p[i]) is Silence && (#[trigger] p[j]) is Silence ==> p[i]
            != p[j]
}

/// The silences among pieces all stand before the given position.
pub open spec fn silences_before(p: Seq<Piece>, s: Seq<Silence>, position: int) -> bool {
    forall|i: int|
        0 <= i < p.len() ==> ((#[trigger] p[i]) matches Piece::Silence(k) ==> k < s.len()
            && s[k as int].position < position)
}

proof fn lemma_silence_found(s: Seq<Silence>, position: int)
    requires
        s.len() <= usize::MAX,
    ensures
        first_at(s, position) matches Some(i) ==> i < s.len() && s[i as int].position == position,
    decreases s.len(),
{
    if s.len() > 0 {
        lemma_silence_found(s.drop_last(), position);
    }
}

proof fn lemma_silences_once(s: Seq<Silence>, corrected: Seq<bool>, k: nat)
    requires
        s.len() <= usize::MAX,
    ensures
        silences_once(clips_with_silences(s, corrected, k)),
        silences_before(clips_with_silences(s, corrected, k), s, k as int),
    decreases k,
{
    if k > 0 {
        let head = clips_with_silences(s, corrected, (k - 1) as nat);
        let all = clips_with_silences(s, corrected, k);
        lemma_silences_once(s, corrected, (k - 1) as nat);
        lemma_silence_found(s, k - 1);
        assert forall|i: int| 0 <= i < all.len() implies ((#[trigger] all[i]) matches Piece::Silence(
            m,
        ) ==> m < s.len() && s[m as int].position < k) by {
            if i < head.len() {
                assert(all[i] == head[i]);
            }
        }
        assert forall|i: int, j: int|
            0 <= i < j < all.len() && (#[trigger] all[i]) is Silence && (
            #[trigger] all[j]) is Silence implies all[i] != all[j] by {
            if j < head.len() {
                assert(all[i] == head[i] && all[j] == head[j]);
            } else if i < head.len() {
                assert(all[i] == head[i]);
            }
        }
    }
}

/// No silence is joined twice.
pub proof fn law_no_silence_is_joined_twice(s: Seq<Silence>, corrected: Seq<bool>, remade: bool)
    requires
        s.len() <= usize::MAX,
    ensures
        silences_once(pieces(s, corrected, remade)),
{
    let head = clips_with_silences(s, corrected, corrected.len());
    let all = pieces(s, corrected, remade);
    lemma_silences_once(s, corrected, corrected.len());
    lemma_silence_found(s, corrected.len() as int);
    assert forall|i: int, j: int|
        0 <= i < j < all.len() && (#[trigger] all[i]) is Silence && (
        #[trigger] all[j]) is Silence implies all[i] != all[j] by {
        if j < head.len() {
            assert(all[i] == head[i] && all[j] == head[j]);
        } else if i < head.len() {
            assert(all[i] == head[i]);
        }
    }
}

/// The time that nothing is said, in milliseconds: before the first clip, between a clip and the one
/// before it, or behind the last clip. Where clips overlap it is not positive.
pub open spec fn unspoken(times: Seq<(i64, i64)>, total: int, position: int) -> int {
    let n = times.len() as int;
    let from = if position == 0 {
        0
    } else {
        times[position - 1].1 as int
    };
    let to = if position == n {
        total
    } else {
        times[position].0 as int
    };
    to - from
}

proof fn lemma_gaps_are_unspoken(times: Seq<(i64, i64)>, total: int, k: nat)
    requires
        k < times.len() <= usize::MAX,
        times_in_range(times),
    ensures
        forall|i: int|
            0 <= i < gaps(times, k).len() ==> {
                let x = #[trigger] gaps(times, k)[i];
                0 < x.position <= k && 0 < x.millis == unspoken(times, total, x.position as int)
            },
        forall|p: int|
            0 < p <= k && #[trigger] unspoken(times, total, p) > 0 ==> exists|i: int|
                0 <= i < gaps(times, k).len() && (#[trigger] gaps(times, k)[i]).position == p,
    decreases k,
{
    if k > 0 {
        let before = gaps(times, (k - 1) as nat);
        let all = gaps(times, k);
        let gap = times[k as int].0 - times[k - 1].1;
        lemma_gaps_are_unspoken(times, total, (k - 1) as nat);
        assert(time_in_range(times[k as int].0 as int));
        assert(time_in_range(times[k - 1].1 as int));
        assert(unspoken(times, total, k as int) == gap);
        assert forall|i: int| 0 <= i < all.len() implies {
            let x = #[trigger] all[i];
            0 < x.position <= k && 0 < x.millis == unspoken(times, total, x.position as int)
        } by {
            if i < before.len() {
                assert(all[i] == before[i]);
            }
        }
        assert forall|p: int| 0 < p <= k && #[trigger] unspoken(
            times,
            total,
            p,
        ) > 0 implies exists|i: int| 0 <= i < all.len() && (#[trigger] all[i]).position == p by {
            if p < k {
                let i = choose|i: int|
                    0 <= i < before.len() && (#[trigger] before[i]).position == p;
                assert(all[i] == before[i]);
            } else {
                assert(all[before.len() as int].position == p);
            }
        }
    }
}

/// The silences of a recording are the times at which nothing is said: each silence is as long as its
/// time, and every such time that is longer than nothing has its silence.
pub proof fn law_silences_are_the_unspoken_times(times: Seq<(i64, i64)>, total: int)
    requires
        0 < times.len() < usize::MAX,
        times_in_range(times),
        length_in_range(total),
    ensures
        forall|i: int|
            0 <= i < silence_plan(times, total).len() ==> {
                let x = #[trigger] silence_plan(times, total)[i];
                x.position <= times.len() && 0 < x.millis == unspoken(
                    times,
                    total,
                    x.position as int,
                )
            },
        forall|p: int|
            0 <= p <= times.len() && #[trigger] unspoken(times, total, p) > 0 ==> exists|i: int|
                0 <= i < silence_plan(times, total).len() && (#[trigger] silence_plan(
                    times,
                    total,
                )[i]).position == p,
{
    let n = times.len() as int;
    let all = silence_plan(times, total);
    let a = silence(0, times[0].0 as int);
    let b = gaps(times, (n - 1) as nat);
    let c = silence(n, total - times[n - 1].1);
    lemma_gaps_are_unspoken(times, total, (n - 1) as nat);
    assert(time_in_range(times[n - 1].1 as int));
    assert(unspoken(times, total, 0) == times[0].0);
    assert(unspoken(times, total, n) == total - times[n - 1].1);
    assert forall|i: int| 0 <= i < all.len() implies {
        let x = #[trigger] all[i];
        x.position <= n && 0 < x.millis == unspoken(times, total, x.position as int)
    } by {
        if a.len() <= i < a.len() + b.len() {
            assert(all[i] == b[i - a.len()]);
        }
    }
    assert forall|p: int| 0 <= p <= n && #[trigger] unspoken(times, total, p) > 0 implies exists|
        i: int,
    | 0 <= i < all.len() && (#[trigger] all[i]).position == p by {
        if p == 0 {
            assert(all[0] == a[0]);
        } else if p == n {
            assert(all[(a.len() + b.len()) as int] == c[0]);
        } else {
            let i = choose|i: int| 0 <= i < b.len() && (#[trigger] b[i]).position == p;
            assert(all[a.len() + i] == b[i]);
        }
    }
}

proof fn lemma_millis_are_unspoken(times: Seq<(i64, i64)>, total: int, p: int)
    requires
        times.len() < usize::MAX,
        times_in_range(times),
        length_in_range(total),
        laid_out(times, total),
        0 <= p <= times.len(),
    ensures
        millis_at(silence_plan(times, total), p) == unspoken(times, total, p),
{
    let s = silence_plan(times, total);
    let n = times.len();
    law_silences_have_places_of_their_own(times, total);
    law_silences_are_the_unspoken_times(times, total);
    lemma_plan_len(times, (n - 1) as nat);
    lemma_first_at(s, p, n as int);
    if unspoken(times, total, p) > 0 {
        let i = choose|i: int| 0 <= i < s.len() && (#[trigger] s[i]).position == p;
        assert(first_at(s, p) is Some);
    } else {
        if 0 < p < n {
            assert(times[p - 1].1 <= times[p].0);
        }
        assert(unspoken(times, total, p) == 0);
    }
}

/// The silences and the clips before a clip are together as long as the time before it.
proof fn lemma_time_before(times: Seq<(i64, i64)>, total: int, k: nat)
    requires
        times.len() < usize::MAX,
        times_in_range(times),
        length_in_range(total),
        laid_out(times, total),
        k < times.len(),
    ensures
        spoken_millis(times, k) + millis_up_to(silence_plan(times, total), k) == times[k as int].0,
    decreases k,
{
    reveal_with_fuel(spoken_millis, 2);
    reveal_with_fuel(millis_up_to, 2);
    lemma_millis_are_unspoken(times, total, k as int);
    if k > 0 {
        lemma_time_before(times, total, (k - 1) as nat);
    }
}

/// The piece is the clip with this number.
pub open spec fn is_clip(p: Piece, i: int) -> bool {
    p matches Piece::Clip { index, .. } && index == i
}

proof fn lemma_clips_start(
    times: Seq<(i64, i64)>,
    total: int,
    corrected: Seq<bool>,
    tail: int,
    k: nat,
    j: int,
    i: int,
)
    requires
        times.len() < usize::MAX,
        times_in_range(times),
        length_in_range(total),
        laid_out(times, total),
        corrected.len() == times.len(),
        k <= times.len(),
        0 <= j < clips_with_silences(silence_plan(times, total), corrected, k).len(),
        is_clip(clips_with_silences(silence_plan(times, total), corrected, k)[j], i),
    ensures
        pieces_millis(
            clips_with_silences(silence_plan(times, total), corrected, k).take(j),
            silence_plan(times, total),
            times,
            tail,
        ) == times[i].0,
    decreases k,
{
    let s = silence_plan(times, total);
    let n = times.len();
    let all = clips_with_silences(s, corrected, k);
    let head = clips_with_silences(s, corrected, (k - 1) as nat);
    let quiet = silence_piece(s, k - 1);
    if j < head.len() {
        assert(all[j] == head[j]);
        lemma_clips_start(times, total, corrected, tail, (k - 1) as nat, j, i);
        assert(all.take(j) =~= head.take(j));
    } else {
        assert(all.take(j) =~= head + quiet);
        law_silences_have_places_of_their_own(times, total);
        lemma_plan_len(times, (n - 1) as nat);
        lemma_clips_millis(s, corrected, (k - 1) as nat, times, tail);
        lemma_silence_piece(s, k - 1, n as int, times, tail);
        lemma_pieces_millis_add(head, quiet, s, times, tail);
        lemma_time_before(times, total, (k - 1) as nat);
        reveal_with_fuel(millis_up_to, 2);
    }
}

/// Every clip is heard at the time of its subtitle: for clips that lie one behind the other, all
/// pieces before a clip are together as long as the time at which the subtitle starts.
pub proof fn law_every_clip_starts_at_its_time(
    times: Seq<(i64, i64)>,
    total: int,
    corrected: Seq<bool>,
    remade: bool,
    tail: int,
    j: int,
    i: int,
)
    requires
        times.len() < usize::MAX,
        times_in_range(times),
        length_in_range(total),
        laid_out(times, total),
        corrected.len() == times.len(),
        0 <= j < pieces(silence_plan(times, total), corrected, remade).len(),
        is_clip(pieces(silence_plan(times, total), corrected, remade)[j], i),
    ensures
        0 <= i < times.len(),
        pieces_millis(
            pieces(silence_plan(times, total), corrected, remade).take(j),
            silence_plan(times, total),
            times,
            tail,
        ) == times[i].0,
{
    let s = silence_plan(times, total);
    let all = pieces(s, corrected, remade);
    let head = clips_with_silences(s, corrected, corrected.len());
    lemma_plan_len(times, (times.len() - 1) as nat);
    law_what_the_pieces_are(s, corrected, remade, j);
    assert(all[j] == head[j]);
    lemma_clips_start(times, total, corrected, tail, corrected.len(), j, i);
    assert(all.take(j) =~= head.take(j));
}

proof fn lemma_what_clips_are(s: Seq<Silence>, corrected: Seq<bool>, k: nat, j: int)
    requires
        s.len() <= usize::MAX,
        k <= corrected.len() <= usize::MAX,
        0 <= j < clips_with_silences(s, corrected, k).len(),
    ensures
        clips_with_silences(s, corrected, k).last() is Clip,
        is_clip(clips_with_silences(s, corrected, k).last(), k - 1),
        match clips_with_silences(s, corrected, k)[j] {
            Piece::Silence(m) => {
                &&& m < s.len()
                &&& j + 1 < clips_with_silences(s, corrected, k).len()
                &&& is_clip(
                    clips_with_silences(s, corrected, k)[j + 1],
                    s[m as int].position as int,
                )
            },
            Piece::Clip { index, corrected: second } => index < k && second
                == corrected[index as int],
            Piece::Tail => false,
        },
    decreases k,
{
    let all = clips_with_silences(s, corrected, k);
    let head = clips_with_silences(s, corrected, (k - 1) as nat);
    lemma_silence_found(s, k - 1);
    if j < head.len() {
        lemma_what_clips_are(s, corrected, (k - 1) as nat, j);
        assert(all[j] == head[j]);
        if j + 1 < head.len() {
            assert(all[j + 1] == head[j + 1]);
        }
    }
}

/// The pieces, one by one: a silence stands right before the clip that it belongs to, and the one at
/// the end stands last; a clip is taken from the second pass exactly if there was one; and the silence
/// that was made anew stands last, if there is one, and nowhere else.
pub proof fn law_what_the_pieces_are(s: Seq<Silence>, corrected: Seq<bool>, remade: bool, j: int)
    requires
        s.len() <= usize::MAX,
        corrected.len() < usize::MAX,
        0 <= j < pieces(s, corrected, remade).len(),
    ensures
        match pieces(s, corrected, remade)[j] {
            Piece::Silence(m) => {
                &&& m < s.len()
                &&& if j + 1 < pieces(s, corrected, remade).len() {
                    is_clip(pieces(s, corrected, remade)[j + 1], s[m as int].position as int)
                } else {
                    s[m as int].position == corrected.len() && !remade
                }
            },
            Piece::Clip { index, corrected: second } => index < corrected.len() && second
                == corrected[index as int],
            Piece::Tail => remade && j == pieces(s, corrected, remade).len() - 1,
        },
        remade ==> pieces(s, corrected, remade).last() is Tail,
{
    let n = corrected.len();
    let all = pieces(s, corrected, remade);
    let head = clips_with_silences(s, corrected, n);
    lemma_silence_found(s, n as int);
    if j < head.len() {
        lemma_what_clips_are(s, corrected, n, j);
        assert(all[j] == head[j]);
        if j + 1 < head.len() {
            assert(all[j + 1] == head[j + 1]);
        }
    }
}

/// Every silence is joined: those before clips, and the one at the end unless it was made anew.
pub proof fn law_every_silence_is_joined(s: Seq<Silence>, corrected: Seq<bool>, remade: bool, m: int)
    requires
        s.len() <= usize::MAX,
        corrected.len() < usize::MAX,
        positions_rise(s, corrected.len() as int),
        0 <= m < s.len(),
        s[m].position < corrected.len() || !remade,
    ensures
        pieces(s, corrected, remade).contains(Piece::Silence(m as usize)),
{
    let n = corrected.len();
    let all = pieces(s, corrected, remade);
    let head = clips_with_silences(s, corrected, n);
    let p = s[m].position as int;
    lemma_first_at(s, p, n as int);
    assert(first_at(s, p) == Some(m as nat)) by {
        let i = first_at(s, p)->0 as int;
        assert(s[i].position == s[m].position);
        if i < m {
            assert(s[i].position < s[m].position);
        } else if m < i {
            assert(s[m].position < s[i].position);
        }
    }
    if p < n {
        let j = lemma_silence_is_among(s, corrected, n, p);
        assert(all[j] == head[j]);
    } else {
        assert(all[head.len() as int] == Piece::Silence(m as usize));
    }
}

proof fn lemma_silence_is_among(s: Seq<Silence>, corrected: Seq<bool>, k: nat, p: int) -> (j: int)
    requires
        0 <= p < k,
        first_at(s, p) is Some,
    ensures
        0 <= j < clips_with_silences(s, corrected, k).len(),
        clips_with_silences(s, corrected, k)[j] == Piece::Silence(first_at(s, p)->0 as usize),
    decreases k,
{
    let head = clips_with_silences(s, corrected, (k - 1) as nat);
    if p == k - 1 {
        head.len() as int
    } else {
        lemma_silence_is_among(s, corrected, (k - 1) as nat, p)
    }
}

} // verus!
