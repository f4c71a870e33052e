use ttsvii::audio::Cut;
use ttsvii::commands::{
    filter_args, join_args, join_encoded_args, piece_file, probe_args, segment_file, silence_args, split_args,
};
use ttsvii::silence::Piece;

fn line(args: Vec<String>) -> String {
    args.join(" ")
}

#[test]
fn command_lines_are_those_of_the_tools() {
    assert_eq!(
        line(probe_args("in.mp4")),
        "-v error -show_entries format=duration -of default=noprint_wrappers=1:nokey=1 in.mp4"
    );
    assert_eq!(
        line(split_args("in.mp4", &Cut { start: 1500, micros: 2_250_000 }, "o.wav")),
        "-loglevel error -threads 1 -i in.mp4 -ss 1.5 -t 2.25 -acodec pcm_s16le -ar 44100 -ac 2 \
         -avoid_negative_ts make_zero -y o.wav"
    );
    assert_eq!(
        line(join_args("l.txt", "o.wav")),
        "-loglevel error -f concat -safe 0 -i l.txt -c copy -y o.wav"
    );
    assert_eq!(
        line(join_encoded_args("l.txt", "o.wav")),
        "-loglevel error -f concat -safe 0 -i l.txt -acodec pcm_s16le -ar 44100 -ac 2 -y o.wav"
    );
    assert_eq!(
        line(filter_args("i.wav", "atempo=1.500", "o.wav")),
        "-loglevel error -i i.wav -af atempo=1.500 -acodec pcm_s16le -ar 44100 -ac 2 -y o.wav"
    );
    assert_eq!(
        line(silence_args(1_000_000, "o.wav").unwrap()),
        "-loglevel error -f lavfi -i anullsrc=channel_layout=stereo:sample_rate=44100 -t 1 \
         -acodec pcm_s16le -ar 44100 -ac 2 -y o.wav"
    );
    assert!(silence_args(0, "o.wav").is_none());
    assert!(silence_args(-1, "o.wav").is_none());
}

#[test]
fn files_have_numbers() {
    assert_eq!(segment_file(7), "segment_0007.wav");
    assert_eq!(segment_file(123456), "segment_123456.wav");
    assert_eq!(piece_file(&Piece::Silence(3)), "silence_3.wav");
    assert_eq!(piece_file(&Piece::Clip { index: 0, corrected: false }), "processed_0001.wav");
    assert_eq!(piece_file(&Piece::Clip { index: 11, corrected: true }), "corrected_0012.wav");
    assert_eq!(piece_file(&Piece::Tail), "silence_end_adjusted.wav");
}
