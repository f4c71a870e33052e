//! Subtitles: reading SRT text and normalising its entries.
use vstd::prelude::*;
use srtlib::Subtitles;
use crate::text::{blank, is_blank, trim, trimmed};

verus! {

/// Entries shorter than this are joined with the ones that follow, in milliseconds.
pub const MIN_DURATION: i64 = 500;

/// One subtitle: what is said, and when. Times are milliseconds from the start.
#[derive(Debug)]
pub struct SrtEntry {
    pub index: u32,
    pub start_time: i64,
    pub end_time: i64,
    pub text: String,
}

/// The mathematical content of an [`SrtEntry`].
#[verifier::ext_equal]
pub ghost struct EntryModel {
    pub index: u32,
    pub start: int,
    pub end: int,
    pub text: Seq<char>,
}

impl View for SrtEntry {
    type V = EntryModel;

    open spec fn view(&self) -> EntryModel {
        EntryModel {
            index: self.index,
            start: self.start_time as int,
            end: self.end_time as int,
            text: self.text@,
        }
    }
}

impl Clone for SrtEntry {
    fn clone(&self) -> (r: Self)
        ensures
            r@ == self@,
    {
        SrtEntry {
            index: self.index,
            start_time: self.start_time,
            end_time: self.end_time,
            text: self.text.clone(),
        }
    }
}

/// The models of a run of entries.
pub open spec fn models(v: Seq<SrtEntry>) -> Seq<EntryModel> {
    Seq::new(v.len(), |i: int| v[i]@)
}

/// A subtitle as it stands in the file. A time is hours, minutes, seconds and milliseconds.
#[derive(Debug)]
pub struct Cue {
    pub num: usize,
    pub start: (u8, u8, u8, u16),
    pub end: (u8, u8, u8, u16),
    pub text: String,
}

/// The mathematical content of a [`Cue`].
#[verifier::ext_equal]
pub ghost struct CueModel {
    pub num: usize,
    pub start: (u8, u8, u8, u16),
    pub end: (u8, u8, u8, u16),
    pub text: Seq<char>,
}

impl View for Cue {
    type V = CueModel;

    open spec fn view(&self) -> CueModel {
        CueModel { num: self.num, start: self.start, end: self.end, text: self.text@ }
    }
}

/// The models of a run of cues.
pub open spec fn cue_models(v: Seq<Cue>) -> Seq<CueModel> {
    Seq::new(v.len(), |i: int| v[i]@)
}

/// Why a subtitle text cannot be used.
#[derive(Debug)]
pub enum SrtError {
    /// The text does not follow the format; the reason is given.
    Malformed(String),
    /// There is no entry with any text.
    NoEntries,
    /// An entry does not end after it starts.
    InvalidInterval,
}

/// The mathematical content of an [`SrtError`].
pub ghost enum SrtFailure {
    Malformed(Seq<char>),
    NoEntries,
    InvalidInterval,
}

impl View for SrtError {
    type V = SrtFailure;

    open spec fn view(&self) -> SrtFailure {
        match self {
            SrtError::Malformed(m) => SrtFailure::Malformed(m@),
            SrtError::NoEntries => SrtFailure::NoEntries,
            SrtError::InvalidInterval => SrtFailure::InvalidInterval,
        }
    }
}

impl SrtError {
    /// The text shown to the user.
    pub open spec fn message_text(&self) -> Seq<char> {
        match self {
            SrtError::Malformed(m) => "解析 SRT 文件失败: "@ + m@,
            SrtError::NoEntries => "未找到有效的 SRT 条目"@,
            SrtError::InvalidInterval => "字幕时间区间无效 (开始时间应早于结束时间)"@,
        }
    }

    /// The text shown to the user.
    pub fn message(&self) -> (r: String)
        ensures
            r@ == self.message_text(),
    {
        match self {
            SrtError::Malformed(m) => {
                let mut r = "解析 SRT 文件失败: ".to_string();
                r.append(m.as_str());
                r
            },
            SrtError::NoEntries => "未找到有效的 SRT 条目".to_string(),
            SrtError::InvalidInterval => "字幕时间区间无效 (开始时间应早于结束时间)".to_string(),
        }
    }
}

/// What a parse yields, in mathematical terms.
pub open spec fn outcome(r: Result<Vec<SrtEntry>, SrtError>) -> Result<
    Seq<EntryModel>,
    SrtFailure,
> {
    match r {
        Ok(v) => Ok(models(v@)),
        Err(e) => Err(e@),
    }
}

// ---------------------------------------------------------------------------
// Reading cues
// ---------------------------------------------------------------------------

/// What `srtlib` makes of a subtitle text: the cues in the order of the file, or the text of its
/// error.
pub uninterp spec fn srtlib_cues(content: Seq<char>) -> Result<Seq<CueModel>, Seq<char>>;

/// The named result of reading cues, for a result that was computed.
pub open spec fn cues_outcome(r: Result<Vec<Cue>, String>) -> Result<Seq<CueModel>, Seq<char>> {
    match r {
        Ok(v) => Ok(cue_models(v@)),
        Err(e) => Err(e@),
    }
}

/// Calls `srtlib::Subtitles::parse_from_str`, and hands out each subtitle's number, text and, by
/// `Timestamp::get`, its two times. The contract says only that the result depends on nothing but
/// the text; the parser has no failure other than the error it returns.
#[verifier::external_body]
fn read_cues(content: &str) -> (r: Result<Vec<Cue>, String>)
    ensures
        cues_outcome(r) == srtlib_cues(content@),
{
    match Subtitles::parse_from_str(content.to_string()) {
        Ok(subtitles) => Ok(
            subtitles.to_vec().into_iter().map(
                |s| Cue {
                    num: s.num,
                    start: s.start_time.get(),
                    end: s.end_time.get(),
                    text: s.text,
                },
            ).collect(),
        ),
        Err(e) => Err(e.to_string()),
    }
}

/// The milliseconds of a time. A millisecond part of a thousand or more is not a millisecond part;
/// it is taken down by a factor of a thousand.
pub open spec fn timestamp_millis(t: (u8, u8, u8, u16)) -> int {
    let ms: int = if t.3 >= 1000 {
        (t.3 / 1000) as int
    } else {
        t.3 as int
    };
    t.0 * 3_600_000 + t.1 * 60_000 + t.2 * 1000 + ms
}

/// The milliseconds of a time.
pub fn timestamp_to_duration(ts: (u8, u8, u8, u16)) -> (r: i64)
    ensures
        r == timestamp_millis(ts),
{
    let ms: u16 = if ts.3 >= 1000 {
        ts.3 / 1000
    } else {
        ts.3
    };
    ts.0 as i64 * 3600 * 1000 + ts.1 as i64 * 60 * 1000 + ts.2 as i64 * 1000 + ms as i64
}

/// The entry that a cue stands for.
pub open spec fn entry_of_cue(c: CueModel) -> EntryModel {
    EntryModel {
        index: c.num as u32,
        start: timestamp_millis(c.start),
        end: timestamp_millis(c.end),
        text: c.text,
    }
}

// ---------------------------------------------------------------------------
// Order
// ---------------------------------------------------------------------------

/// Entries are ordered by their start, and by their end where they start together.
pub open spec fn not_after(a: EntryModel, b: EntryModel) -> bool {
    a.start < b.start || (a.start == b.start && a.end <= b.end)
}

/// Every entry stands behind those that it must not come before.
pub open spec fn in_order(s: Seq<EntryModel>) -> bool {
    forall|i: int, j: int| 0 <= i <= j < s.len() ==> not_after(#[trigger] s[i], #[trigger] s[j])
}

/// An ordered run with one more entry, set behind everything that it must not come before.
pub open spec fn inserted(s: Seq<EntryModel>, e: EntryModel) -> Seq<EntryModel>
    decreases s.len(),
{
    if s.len() == 0 || not_after(s.last(), e) {
        s.push(e)
    } else {
        inserted(s.drop_last(), e).push(s.last())
    }
}

/// The entries in order; those that are equally placed keep the order they had.
pub open spec fn ordered(s: Seq<EntryModel>) -> Seq<EntryModel>
    decreases s.len(),
{
    if s.len() == 0 {
        s
    } else {
        inserted(ordered(s.drop_last()), s.last())
    }
}

// ---------------------------------------------------------------------------
// Joining
// ---------------------------------------------------------------------------

/// Too short to be spoken alone.
pub open spec fn short(e: EntryModel) -> bool {
    e.end - e.start < MIN_DURATION
}

/// Two entries as one: the texts side by side, up to the later end.
pub open spec fn absorbed(a: EntryModel, b: EntryModel) -> EntryModel {
    EntryModel {
        index: a.index,
        start: a.start,
        end: if a.end >= b.end {
            a.end
        } else {
            b.end
        },
        text: trimmed(a.text) + ", "@ + trimmed(b.text),
    }
}

/// How many of the entries that follow are joined to `e`.
pub open spec fn reach(e: EntryModel, rest: Seq<EntryModel>) -> nat
    decreases rest.len(),
{
    if short(e) && rest.len() > 0 {
        1 + reach(absorbed(e, rest[0]), rest.drop_first())
    } else {
        0
    }
}

/// The entry `e` together with those that are joined to it.
pub open spec fn grown(e: EntryModel, rest: Seq<EntryModel>) -> EntryModel
    decreases rest.len(),
{
    if short(e) && rest.len() > 0 {
        grown(absorbed(e, rest[0]), rest.drop_first())
    } else {
        e
    }
}

/// The entries with the short ones joined to what follows them.
pub open spec fn grouped(s: Seq<EntryModel>) -> Seq<EntryModel>
    decreases s.len(),
{
    if s.len() == 0 {
        s
    } else {
        let rest = s.drop_first();
        proof {
            lemma_reach_bound(s[0], rest);
        }
        seq![grown(s[0], rest)] + grouped(rest.skip(reach(s[0], rest) as int))
    }
}

/// An entry reaches no further than there are entries.
pub proof fn lemma_reach_bound(e: EntryModel, rest: Seq<EntryModel>)
    ensures
        reach(e, rest) <= rest.len(),
    decreases rest.len(),
{
    if short(e) && rest.len() > 0 {
        lemma_reach_bound(absorbed(e, rest[0]), rest.drop_first());
    }
}

/// The entry ends after it starts.
pub open spec fn proper(e: EntryModel) -> bool {
    e.start < e.end
}

/// The entries numbered from one on.
pub open spec fn numbered(s: Seq<EntryModel>) -> Seq<EntryModel> {
    Seq::new(
        s.len(),
        |i: int| EntryModel { index: ((i + 1) % 0x1_0000_0000) as u32, ..s[i] },
    )
}

/// The entries that have a text.
pub open spec fn spoken(s: Seq<EntryModel>) -> Seq<EntryModel>
    decreases s.len(),
{
    if s.len() == 0 {
        s
    } else if blank(s.last().text) {
        spoken(s.drop_last())
    } else {
        spoken(s.drop_last()).push(s.last())
    }
}

/// The normal form of a run of entries.
pub open spec fn normal_form(s: Seq<EntryModel>) -> Result<Seq<EntryModel>, SrtFailure> {
    let g = grouped(ordered(spoken(s)));
    if spoken(s).len() == 0 {
        Err(SrtFailure::NoEntries)
    } else if forall|i: int| 0 <= i < g.len() ==> proper(#[trigger] g[i]) {
        Ok(numbered(g))
    } else {
        Err(SrtFailure::InvalidInterval)
    }
}

/// The entries of a run of cues that was read, in their normal form.
pub open spec fn parsed(cues: Result<Seq<CueModel>, Seq<char>>) -> Result<
    Seq<EntryModel>,
    SrtFailure,
> {
    match cues {
        Err(m) => Err(SrtFailure::Malformed(m)),
        Ok(c) => if c.len() == 0 {
            Err(SrtFailure::NoEntries)
        } else {
            normal_form(Seq::new(c.len(), |i: int| entry_of_cue(c[i])))
        },
    }
}

/// Reads subtitle texts.
pub struct SrtParser;

impl SrtParser {
    /// Reads a subtitle text and brings its entries into their normal form.
    pub fn parse(content: &str) -> (r: Result<Vec<SrtEntry>, SrtError>)
        ensures
            outcome(r) == parsed(srtlib_cues(content@)),
    {
        Self::entries_of(read_cues(content))
    }

    /// Reads a subtitle file, given its text or the reason why it could not be read.
    pub fn parse_file(read: Result<String, String>) -> (r: Result<Vec<SrtEntry>, SrtError>)
        ensures
            outcome(r) == match read {
                Ok(content) => parsed(srtlib_cues(content@)),
                Err(m) => Err(SrtFailure::Malformed(m@)),
            },
    {
        match read {
            Ok(content) => Self::parse(content.as_str()),
            Err(m) => Err(SrtError::Malformed(m)),
        }
    }

    /// The entries of a text whose cues were read: in their normal form, or the reason why there
    /// are none.
    pub fn entries_of(cues: Result<Vec<Cue>, String>) -> (r: Result<Vec<SrtEntry>, SrtError>)
        ensures
            outcome(r) == parsed(cues_outcome(cues)),
    {
        match cues {
            Err(m) => Err(SrtError::Malformed(m)),
            Ok(c) => match Self::convert_to_entries(c) {
                Err(e) => Err(e),
                Ok(entries) => {
                    assert(models(entries@) =~= Seq::new(
                        cue_models(c@).len(),
                        |i: int| entry_of_cue(cue_models(c@)[i]),
                    ));
                    Self::normalize_entries(entries)
                },
            },
        }
    }

    /// One entry for every cue.
    pub fn convert_to_entries(cues: Vec<Cue>) -> (r: Result<Vec<SrtEntry>, SrtError>)
        ensures
            match r {
                Ok(v) => cues@.len() > 0 && models(v@) == Seq::new(
                    cues@.len(),
                    |i: int| entry_of_cue(cues@[i]@),
                ),
                Err(e) => cues@.len() == 0 && e is NoEntries,
            },
    {
        let mut entries: Vec<SrtEntry> = Vec::new();
        for i in 0..cues.len()
            invariant
                entries@.len() == i,
                forall|j: int| 0 <= j < i ==> (#[trigger] entries@[j])@ == entry_of_cue(cues@[j]@),
        {
            entries.push(
                SrtEntry {
                    index: cues[i].num as u32,
                    start_time: timestamp_to_duration(cues[i].start),
                    end_time: timestamp_to_duration(cues[i].end),
                    text: cues[i].text.clone(),
                },
            );
        }
        if entries.len() == 0 {
            return Err(SrtError::NoEntries);
        }
        assert(models(entries@) =~= Seq::new(cues@.len(), |i: int| entry_of_cue(cues@[i]@)));
        Ok(entries)
    }

    /// Brings entries into their normal form: those without a text are dropped, the others are put
    /// in order, short ones are joined to what follows, and all are numbered anew.
    pub fn normalize_entries(entries: Vec<SrtEntry>) -> (r: Result<Vec<SrtEntry>, SrtError>)
        ensures
            outcome(r) == normal_form(models(entries@)),
    {
        let kept = keep_spoken(&entries);
        if kept.len() == 0 {
            return Err(SrtError::NoEntries);
        }
        let filtered = sort_entries(kept);
        let ghost all = models(filtered@);
        let ghost mut groups: Seq<EntryModel> = Seq::empty();
        let mut normalized: Vec<SrtEntry> = Vec::with_capacity(filtered.len());
        let mut i: usize = 0;
        assert(all.skip(0) =~= all);
        assert(models(normalized@) =~= numbered(groups));
        while i < filtered.len()
            invariant
                i <= filtered@.len(),
                all == models(filtered@),
                all == ordered(spoken(models(entries@))),
                spoken(models(entries@)).len() > 0,
                grouped(all) == groups + grouped(all.skip(i as int)),
                forall|k: int| 0 <= k < groups.len() ==> proper(#[trigger] groups[k]),
                models(normalized@) == numbered(groups),
            decreases filtered@.len() - i,
        {
            let mut current = filtered[i].clone();
            let mut j: usize = i;
            let ghost rest = all.skip(i as int).drop_first();
            assert(rest =~= all.skip(i + 1));
            while is_short(&current) && j + 1 < filtered.len()
                invariant
                    i <= j < filtered@.len(),
                    filtered@.len() <= usize::MAX,
                    all == models(filtered@),
                    rest == all.skip(i + 1),
                    grown(all[i as int], rest) == grown(current@, all.skip(j + 1)),
                    reach(all[i as int], rest) == (j - i) + reach(current@, all.skip(j + 1)),
                decreases filtered@.len() - j,
            {
                let next = &filtered[j + 1];
                assert(all.skip(j + 1)[0] == next@);
                assert(all.skip(j + 1).drop_first() =~= all.skip(j + 2));
                current = absorb(&current, next);
                j += 1;
            }
            proof {
                assert(all.skip(i as int)[0] == all[i as int]);
                assert(grown(all[i as int], rest) == current@);
                assert(reach(all[i as int], rest) == j - i);
                assert(rest.skip(j - i) =~= all.skip(j + 1));
                assert(grouped(all.skip(i as int)) == seq![current@] + grouped(all.skip(j + 1)));
                assert(groups + (seq![current@] + grouped(all.skip(j + 1))) =~= groups.push(
                    current@,
                ) + grouped(all.skip(j + 1)));
            }
            if current.end_time <= current.start_time {
                proof {
                    let g = grouped(all);
                    assert(g[groups.len() as int] == current@);
                    assert(!proper(g[groups.len() as int]));
                }
                return Err(SrtError::InvalidInterval);
            }
            let ghost before = current@;
            let ghost old_groups = groups;
            let ghost old_normalized = normalized@;
            assert(normalized@.len() == models(normalized@).len() == groups.len());
            current.index = ((normalized.len() as u128 + 1) % 0x1_0000_0000) as u32;
            normalized.push(current);
            proof {
                groups = groups.push(before);
                assert forall|k: int| 0 <= k < groups.len() implies #[trigger] models(
                    normalized@,
                )[k] == numbered(groups)[k] by {
                    if k < old_groups.len() {
                        assert(models(old_normalized)[k] == numbered(old_groups)[k]);
                    }
                }
                assert(models(normalized@) =~= numbered(groups));
            }
            i = j + 1;
        }
        proof {
            assert(all.skip(i as int) =~= Seq::<EntryModel>::empty());
            assert(grouped(all) =~= groups);
        }
        Ok(normalized)
    }
}

/// The entries that have a text, in the order they stand.
fn keep_spoken(entries: &Vec<SrtEntry>) -> (r: Vec<SrtEntry>)
    ensures
        models(r@) == spoken(models(entries@)),
{
    let mut kept: Vec<SrtEntry> = Vec::new();
    let ghost all = models(entries@);
    assert(all.take(0) =~= Seq::<EntryModel>::empty());
    assert(models(kept@) =~= Seq::<EntryModel>::empty());
    for i in 0..entries.len()
        invariant
            all == models(entries@),
            models(kept@) == spoken(all.take(i as int)),
    {
        assert(all.take(i + 1).drop_last() =~= all.take(i as int));
        assert(all.take(i + 1).last() == entries@[i as int]@);
        let ghost before = models(kept@);
        if !is_blank(entries[i].text.as_str()) {
            kept.push(entries[i].clone());
            assert(models(kept@) =~= before.push(entries@[i as int]@));
        }
    }
    assert(all.take(all.len() as int) =~= all);
    kept
}

/// Puts entries in order.
fn sort_entries(entries: Vec<SrtEntry>) -> (r: Vec<SrtEntry>)
    ensures
        models(r@) == ordered(models(entries@)),
{
    let mut sorted: Vec<SrtEntry> = Vec::with_capacity(entries.len());
    let ghost all = models(entries@);
    assert(all.take(0) =~= Seq::<EntryModel>::empty());
    assert(models(sorted@) =~= Seq::<EntryModel>::empty());
    for i in 0..entries.len()
        invariant
            all == models(entries@),
            models(sorted@) == ordered(all.take(i as int)),
    {
        assert(all.take(i + 1).drop_last() =~= all.take(i as int));
        assert(all.take(i + 1).last() == entries@[i as int]@);
        insert_entry(&mut sorted, entries[i].clone());
    }
    assert(all.take(all.len() as int) =~= all);
    sorted
}

/// Sets an entry into an ordered run.
fn insert_entry(sorted: &mut Vec<SrtEntry>, e: SrtEntry)
    ensures
        models(final(sorted)@) == inserted(models(old(sorted)@), e@),
{
    let mut pos: usize = sorted.len();
    let ghost all = models(sorted@);
    assert(all.take(pos as int) =~= all);
    assert(all.skip(pos as int) =~= Seq::<EntryModel>::empty());
    assert(inserted(all, e@) =~= inserted(all.take(pos as int), e@) + all.skip(pos as int));
    while pos > 0 && !comes_not_after(&sorted[pos - 1], &e)
        invariant
            pos <= sorted@.len(),
            all == models(sorted@),
            inserted(all, e@) == inserted(all.take(pos as int), e@) + all.skip(pos as int),
        decreases pos,
    {
        let ghost head = all.take(pos as int);
        assert(head.last() == sorted@[pos - 1]@);
        assert(head.drop_last() =~= all.take(pos - 1));
        assert(inserted(head.drop_last(), e@).push(head.last()) + all.skip(pos as int) =~= inserted(
            all.take(pos - 1),
            e@,
        ) + all.skip(pos - 1));
        pos -= 1;
    }
    assert(pos > 0 ==> all.take(pos as int).last() == sorted@[pos - 1]@);
    let ghost placed = e@;
    sorted.insert(pos, e);
    assert(models(sorted@) =~= all.take(pos as int).push(placed) + all.skip(pos as int));
}

fn comes_not_after(a: &SrtEntry, b: &SrtEntry) -> (r: bool)
    ensures
        r == not_after(a@, b@),
{
    a.start_time < b.start_time || (a.start_time == b.start_time && a.end_time <= b.end_time)
}

fn is_short(e: &SrtEntry) -> (r: bool)
    ensures
        r == short(e@),
{
    (e.end_time as i128) - (e.start_time as i128) < MIN_DURATION as i128
}

/// Joins `next` to `current`.
fn absorb(current: &SrtEntry, next: &SrtEntry) -> (r: SrtEntry)
    ensures
        r@ == absorbed(current@, next@),
{
    let mut text = String::new();
    text.append(trim(current.text.as_str()));
    text.append(", ");
    text.append(trim(next.text.as_str()));
    assert(text@ =~= trimmed(current.text@) + ", "@ + trimmed(next.text@));
    SrtEntry {
        index: current.index,
        start_time: current.start_time,
        end_time: if current.end_time >= next.end_time {
            current.end_time
        } else {
            next.end_time
        },
        text,
    }
}

} // verus!
