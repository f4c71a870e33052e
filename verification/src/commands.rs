//! The command lines of the outside tools, and the names of the files they work on.
use vstd::prelude::*;
use crate::audio::{texts, Cut};
use crate::numeral_laws::{
    all_digits, digits_value, fraction_part, law_fractions_are_read_back, law_numerals_are_read_back,
    law_padded_numerals_are_read_back, no_leading_zero, units, well_formed,
};
use crate::silence::Piece;
use crate::text::{decimal, padded4, push_decimal, push_padded4, push_shortest_signed, shortest_signed};

verus! {

fn add_arg(v: &mut Vec<String>, s: &str)
    ensures
        texts(final(v)@) == texts(old(v)@).push(s@),
{
    v.push(s.to_string());
    assert(texts(v@) =~= texts(old(v)@).push(s@));
}

fn no_args() -> (v: Vec<String>)
    ensures
        texts(v@) == Seq::<Seq<char>>::empty(),
{
    let v: Vec<String> = Vec::new();
    assert(texts(v@) =~= Seq::<Seq<char>>::empty());
    v
}

/// Sixteen-bit stereo sound at 44100 samples a second, over whatever file is there.
pub open spec fn encoding(output: Seq<char>) -> Seq<Seq<char>> {
    seq![
        "-acodec"@,
        "pcm_s16le"@,
        "-ar"@,
        "44100"@,
        "-ac"@,
        "2"@,
        "-y"@,
        output,
    ]
}

fn add_encoding(v: &mut Vec<String>, output: &str)
    ensures
        texts(final(v)@) == texts(old(v)@) + encoding(output@),
{
    add_arg(v, "-acodec");
    add_arg(v, "pcm_s16le");
    add_arg(v, "-ar");
    add_arg(v, "44100");
    add_arg(v, "-ac");
    add_arg(v, "2");
    add_arg(v, "-y");
    add_arg(v, output);
    assert(texts(v@) =~= texts(old(v)@) + encoding(output@));
}

/// A number of microseconds in seconds.
pub open spec fn seconds(micros: int) -> Seq<char> {
    shortest_signed(micros, 6)
}

fn seconds_text(micros: i64) -> (r: String)
    ensures
        r@ == seconds(micros as int),
{
    let mut r = String::new();
    push_shortest_signed(&mut r, micros, 6);
    assert(r@ =~= seconds(micros as int));
    r
}

/// Asks `ffprobe` for the length of a recording.
pub fn probe_args(input: &str) -> (r: Vec<String>)
    ensures
        texts(r@) == seq![
            "-v"@,
            "error"@,
            "-show_entries"@,
            "format=duration"@,
            "-of"@,
            "default=noprint_wrappers=1:nokey=1"@,
            input@,
        ],
{
    let mut v = no_args();
    add_arg(&mut v, "-v");
    add_arg(&mut v, "error");
    add_arg(&mut v, "-show_entries");
    add_arg(&mut v, "format=duration");
    add_arg(&mut v, "-of");
    add_arg(&mut v, "default=noprint_wrappers=1:nokey=1");
    add_arg(&mut v, input);
    assert(texts(v@) =~= seq![
        "-v"@,
        "error"@,
        "-show_entries"@,
        "format=duration"@,
        "-of"@,
        "default=noprint_wrappers=1:nokey=1"@,
        input@,
    ]);
    v
}

/// Has `ffmpeg` cut a part out of a recording.
pub fn split_args(input: &str, cut: &Cut, output: &str) -> (r: Vec<String>)
    ensures
        texts(r@) == seq![
            "-loglevel"@,
            "error"@,
            "-threads"@,
            "1"@,
            "-i"@,
            input@,
            "-ss"@,
            shortest_signed(cut.start as int, 3),
            "-t"@,
            seconds(cut.micros as int),
            "-acodec"@,
            "pcm_s16le"@,
            "-ar"@,
            "44100"@,
            "-ac"@,
            "2"@,
            "-avoid_negative_ts"@,
            "make_zero"@,
            "-y"@,
            output@,
        ],
        units(texts(r@)[7], 3) == cut.start,
        units(texts(r@)[9], 6) == cut.micros,
{
    proof {
        law_fractions_are_read_back(cut.start as int, 3);
        law_lengths_are_given_in_seconds(cut.micros as int);
    }
    let mut start = String::new();
    push_shortest_signed(&mut start, cut.start, 3);
    assert(start@ =~= shortest_signed(cut.start as int, 3));
    let length = seconds_text(cut.micros);
    let mut v = no_args();
    add_arg(&mut v, "-loglevel");
    add_arg(&mut v, "error");
    add_arg(&mut v, "-threads");
    add_arg(&mut v, "1");
    add_arg(&mut v, "-i");
    add_arg(&mut v, input);
    add_arg(&mut v, "-ss");
    add_arg(&mut v, start.as_str());
    add_arg(&mut v, "-t");
    add_arg(&mut v, length.as_str());
    add_arg(&mut v, "-acodec");
    add_arg(&mut v, "pcm_s16le");
    add_arg(&mut v, "-ar");
    add_arg(&mut v, "44100");
    add_arg(&mut v, "-ac");
    add_arg(&mut v, "2");
    add_arg(&mut v, "-avoid_negative_ts");
    add_arg(&mut v, "make_zero");
    add_arg(&mut v, "-y");
    add_arg(&mut v, output);
    assert(texts(v@) =~= seq![
        "-loglevel"@,
        "error"@,
        "-threads"@,
        "1"@,
        "-i"@,
        input@,
        "-ss"@,
        shortest_signed(cut.start as int, 3),
        "-t"@,
        seconds(cut.micros as int),
        "-acodec"@,
        "pcm_s16le"@,
        "-ar"@,
        "44100"@,
        "-ac"@,
        "2"@,
        "-avoid_negative_ts"@,
        "make_zero"@,
        "-y"@,
        output@,
    ]);
    v
}

/// How `ffmpeg` is told to read a list of files.
pub open spec fn reading_list(list: Seq<char>) -> Seq<Seq<char>> {
    seq!["-loglevel"@, "error"@, "-f"@, "concat"@, "-safe"@, "0"@, "-i"@, list]
}

fn add_reading_list(v: &mut Vec<String>, list: &str)
    ensures
        texts(final(v)@) == texts(old(v)@) + reading_list(list@),
{
    add_arg(v, "-loglevel");
    add_arg(v, "error");
    add_arg(v, "-f");
    add_arg(v, "concat");
    add_arg(v, "-safe");
    add_arg(v, "0");
    add_arg(v, "-i");
    add_arg(v, list);
    assert(texts(v@) =~= texts(old(v)@) + reading_list(list@));
}

/// Has `ffmpeg` join the files of a list as they are.
pub fn join_args(list: &str, output: &str) -> (r: Vec<String>)
    ensures
        texts(r@) == reading_list(list@) + seq!["-c"@, "copy"@, "-y"@, output@],
{
    let mut v = no_args();
    add_reading_list(&mut v, list);
    add_arg(&mut v, "-c");
    add_arg(&mut v, "copy");
    add_arg(&mut v, "-y");
    add_arg(&mut v, output);
    assert(texts(v@) =~= reading_list(list@) + seq!["-c"@, "copy"@, "-y"@, output@]);
    v
}

/// Has `ffmpeg` join the files of a list and encode the whole anew.
pub fn join_encoded_args(list: &str, output: &str) -> (r: Vec<String>)
    ensures
        texts(r@) == reading_list(list@) + encoding(output@),
{
    let mut v = no_args();
    add_reading_list(&mut v, list);
    add_encoding(&mut v, output);
    assert(texts(v@) =~= reading_list(list@) + encoding(output@));
    v
}

/// Has `ffmpeg` put a recording through a filter.
pub fn filter_args(input: &str, filter: &str, output: &str) -> (r: Vec<String>)
    ensures
        texts(r@) == seq!["-loglevel"@, "error"@, "-i"@, input@, "-af"@, filter@] + encoding(
            output@,
        ),
{
    let mut v = no_args();
    add_arg(&mut v, "-loglevel");
    add_arg(&mut v, "error");
    add_arg(&mut v, "-i");
    add_arg(&mut v, input);
    add_arg(&mut v, "-af");
    add_arg(&mut v, filter);
    add_encoding(&mut v, output);
    assert(texts(v@) =~= seq!["-loglevel"@, "error"@, "-i"@, input@, "-af"@, filter@] + encoding(
        output@,
    ));
    v
}

/// Has `ffmpeg` make a silence. There is none unless its length is positive.
pub fn silence_args(micros: i64, output: &str) -> (r: Option<Vec<String>>)
    ensures
        match r {
            Some(v) => micros > 0 && texts(v@) == seq![
                "-loglevel"@,
                "error"@,
                "-f"@,
                "lavfi"@,
                "-i"@,
                "anullsrc=channel_layout=stereo:sample_rate=44100"@,
                "-t"@,
                seconds(micros as int),
            ] + encoding(output@) && units(texts(v@)[7], 6) == micros,
            None => micros <= 0,
        },
{
    if micros <= 0 {
        return None;
    }
    proof {
        law_lengths_are_given_in_seconds(micros as int);
    }
    let length = seconds_text(micros);
    let mut v = no_args();
    add_arg(&mut v, "-loglevel");
    add_arg(&mut v, "error");
    add_arg(&mut v, "-f");
    add_arg(&mut v, "lavfi");
    add_arg(&mut v, "-i");
    add_arg(&mut v, "anullsrc=channel_layout=stereo:sample_rate=44100");
    add_arg(&mut v, "-t");
    add_arg(&mut v, length.as_str());
    add_encoding(&mut v, output);
    assert(texts(v@) =~= seq![
        "-loglevel"@,
        "error"@,
        "-f"@,
        "lavfi"@,
        "-i"@,
        "anullsrc=channel_layout=stereo:sample_rate=44100"@,
        "-t"@,
        seconds(micros as int),
    ] + encoding(output@));
    Some(v)
}

// ---------------------------------------------------------------------------
// File names
// ---------------------------------------------------------------------------

/// The name of a file with a padded number.
pub open spec fn numbered_file(prefix: Seq<char>, n: nat) -> Seq<char> {
    prefix + padded4(n) + ".wav"@
}

fn numbered_file_name(prefix: &str, n: u64) -> (r: String)
    ensures
        r@ == numbered_file(prefix@, n as nat),
{
    let mut r = prefix.to_string();
    push_padded4(&mut r, n);
    r.append(".wav");
    assert(r@ =~= numbered_file(prefix@, n as nat));
    r
}

/// The file that a part is cut into.
pub fn segment_file(index: u32) -> (r: String)
    ensures
        r@ == numbered_file("segment_"@, index as nat),
{
    numbered_file_name("segment_", index as u64)
}

/// The name of the file of a piece.
pub open spec fn piece_file_text(p: Piece) -> Seq<char> {
    match p {
        Piece::Silence(i) => "silence_"@ + decimal(i as nat) + ".wav"@,
        Piece::Clip { index, corrected } => numbered_file(
            if corrected {
                "corrected_"@
            } else {
                "processed_"@
            },
            (index + 1) as nat,
        ),
        Piece::Tail => "silence_end_adjusted.wav"@,
    }
}

/// The name of the file of a piece. The files of clips are numbered from one on.
pub fn piece_file(p: &Piece) -> (r: String)
    requires
        p matches Piece::Clip { index, .. } ==> index < usize::MAX,
    ensures
        r@ == piece_file_text(*p),
{
    match p {
        Piece::Silence(i) => {
            let mut r = "silence_".to_string();
            push_decimal(&mut r, *i as u64);
            r.append(".wav");
            r
        },
        Piece::Clip { index, corrected } => {
            if *corrected {
                numbered_file_name("corrected_", (*index + 1) as u64)
            } else {
                numbered_file_name("processed_", (*index + 1) as u64)
            }
        },
        Piece::Tail => "silence_end_adjusted.wav".to_string(),
    }
}

// ---------------------------------------------------------------------------
// Laws
// ---------------------------------------------------------------------------

/// The numeral that a tool is given for a length, read as a decimal fraction of seconds, is the
/// number of microseconds that is asked for.
pub proof fn law_lengths_are_given_in_seconds(micros: int)
    ensures
        units(seconds(micros), 6) == micros,
        seconds(micros) == shortest_signed(micros, 6),
        micros >= 0 ==> well_formed(seconds(micros)) && fraction_part(seconds(micros)).len() <= 6,
{
    law_fractions_are_read_back(micros, 6);
}

/// Every recording that is made is stereo sound of sixteen bits at 44100 samples a second, goes to the
/// file that is meant, and replaces what is there; and lists are read as lists, whatever their names.
pub proof fn law_what_the_tool_is_told(list: Seq<char>, output: Seq<char>)
    ensures
        encoding(output) == seq!["-acodec"@, "pcm_s16le"@] + seq!["-ar"@, "44100"@] + seq![
            "-ac"@,
            "2"@,
        ] + seq!["-y"@, output],
        reading_list(list) == seq!["-loglevel"@, "error"@] + seq!["-f"@, "concat"@] + seq![
            "-safe"@,
            "0"@,
        ] + seq!["-i"@, list],
{
    assert(encoding(output) =~= seq!["-acodec"@, "pcm_s16le"@] + seq!["-ar"@, "44100"@] + seq![
        "-ac"@,
        "2"@,
    ] + seq!["-y"@, output]);
    assert(reading_list(list) =~= seq!["-loglevel"@, "error"@] + seq!["-f"@, "concat"@] + seq![
        "-safe"@,
        "0"@,
    ] + seq!["-i"@, list]);
}

/// What stands between the beginning of a name and `.wav`.
pub open spec fn number_in(name: Seq<char>, prefix: Seq<char>) -> Seq<char> {
    name.subrange(prefix.len() as int, name.len() - ".wav"@.len())
}

/// The name begins like this, goes on with a number, and ends in `.wav`.
pub open spec fn is_numbered(name: Seq<char>, prefix: Seq<char>, n: int) -> bool {
    let digits = number_in(name, prefix);
    &&& name.len() > prefix.len() + ".wav"@.len()
    &&& name == prefix + digits + ".wav"@
    &&& all_digits(digits)
    &&& digits_value(digits) == n
}

/// A file with a padded number carries its number, in four digits at least.
pub proof fn law_files_carry_their_numbers(prefix: Seq<char>, n: nat)
    ensures
        is_numbered(numbered_file(prefix, n), prefix, n as int),
        number_in(numbered_file(prefix, n), prefix).len() >= 4,
{
    let name = numbered_file(prefix, n);
    law_padded_numerals_are_read_back(n);
    assert(number_in(name, prefix) =~= padded4(n));
}

/// The files of pieces carry the numbers of their silences, or of their clips counted from one, and
/// tell the passes apart.
pub proof fn law_piece_files_tell_what_they_hold(p: Piece)
    requires
        p matches Piece::Clip { index, .. } ==> index < usize::MAX,
    ensures
        match p {
            Piece::Silence(i) => is_numbered(piece_file_text(p), "silence_"@, i as int)
                && no_leading_zero(number_in(piece_file_text(p), "silence_"@)),
            Piece::Clip { index, corrected: false } => is_numbered(
                piece_file_text(p),
                "processed_"@,
                index + 1,
            ),
            Piece::Clip { index, corrected: true } => is_numbered(
                piece_file_text(p),
                "corrected_"@,
                index + 1,
            ),
            Piece::Tail => piece_file_text(p) == "silence_end_adjusted.wav"@,
        },
{
    match p {
        Piece::Silence(i) => {
            law_numerals_are_read_back(i as nat);
            assert(number_in(piece_file_text(p), "silence_"@) =~= decimal(i as nat));
        },
        Piece::Clip { index, corrected } => {
            law_files_carry_their_numbers(
                if corrected {
                    "corrected_"@
                } else {
                    "processed_"@
                },
                (index + 1) as nat,
            );
        },
        Piece::Tail => {},
    }
}

/// Different pieces have different files.
pub proof fn law_pieces_have_files_of_their_own(p: Piece, q: Piece)
    requires
        p matches Piece::Clip { index, .. } ==> index < usize::MAX,
        q matches Piece::Clip { index, .. } ==> index < usize::MAX,
        piece_file_text(p) == piece_file_text(q),
    ensures
        p == q,
{
    law_piece_files_tell_what_they_hold(p);
    law_piece_files_tell_what_they_hold(q);
    let a = piece_file_text(p);
    let b = piece_file_text(q);
    reveal_strlit("silence_");
    reveal_strlit("processed_");
    reveal_strlit("corrected_");
    reveal_strlit("silence_end_adjusted.wav");
    reveal_strlit(".wav");
    assert(a[0] == b[0]);
    assert(p is Tail && q is Silence ==> false) by {
        if p is Tail && q is Silence {
            let digits = number_in(b, "silence_"@);
            assert(b[8] == digits[0]);
            assert(b[8] == 'e');
            assert('e' as int == 101);
        }
    }
    assert(q is Tail && p is Silence ==> false) by {
        if q is Tail && p is Silence {
            let digits = number_in(a, "silence_"@);
            assert(a[8] == digits[0]);
            assert(a[8] == 'e');
            assert('e' as int == 101);
        }
    }
    assert("silence_"@[0] == 's');
    assert("processed_"@[0] == 'p');
    assert("corrected_"@[0] == 'c');
}

} // verus!
