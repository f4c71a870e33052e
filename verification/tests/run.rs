use ttsvii::audio::{AudioSplitter, SplitFault};
use ttsvii::pipeline::collect_for_merge;
use ttsvii::srt::{SrtEntry, SrtParser};
use ttsvii::task::TaskManager;

const TEXT: &str = "7
00:00:05,000 --> 00:00:06,500
third

2
00:00:00,100 --> 00:00:00,300
first

9
00:00:00,400 --> 00:00:02,000
again

4
00:00:08,000 --> 00:00:08,005
last
";

fn subtitles() -> Vec<SrtEntry> {
    SrtParser::parse(TEXT).unwrap()
}

#[test]
fn subtitles_become_tasks_with_files_of_their_own() {
    let entries = subtitles();
    assert_eq!(entries.len(), 3);
    let manager = TaskManager::new(entries, "", "t", "o");
    assert_eq!(manager.skipped, 0);
    let files: Vec<&str> = manager.get_tasks().iter().map(|t| t.output_path.as_str()).collect();
    assert_eq!(files, vec!["o/synthesized_1.wav", "o/synthesized_2.wav", "o/synthesized_3.wav"]);
    let texts: Vec<&str> = manager.get_tasks().iter().map(|t| t.entry.text.trim()).collect();
    assert_eq!(texts, vec!["first, again", "third", "last"]);
}

#[test]
fn what_is_joined_follows_the_subtitles_in_time() {
    let manager = TaskManager::new(subtitles(), "", "t", "o");
    let c = collect_for_merge(manager.get_tasks(), &vec![Some(100), None, Some(60)], 44).unwrap();
    assert_eq!(c.files, vec!["o/synthesized_1.wav", "o/synthesized_3.wav"]);
    assert!(c.entries.windows(2).all(|w| w[0].start_time <= w[1].start_time));
}

#[test]
fn subtitles_that_were_read_can_be_joined_and_all_but_the_last_cut() {
    let entries = subtitles();
    assert!(AudioSplitter::can_merge_with_timing(&entries));
    let last = entries.len() - 1;
    for (i, e) in entries.iter().enumerate() {
        let cut = AudioSplitter::plan_cut(e.start_time, e.end_time, Some(5_500_000 + 5_000_000));
        if i < last {
            let cut = cut.unwrap();
            assert_eq!(cut.start, e.start_time);
            assert_eq!(cut.micros, (e.end_time - e.start_time) * 1000);
        } else {
            assert_eq!(cut, Err(SplitFault::TooShort(5)));
        }
    }
    // A part ends with its recording.
    let cut = AudioSplitter::plan_cut(5000, 6500, Some(5_500_000)).unwrap();
    assert_eq!(cut.start * 1000 + cut.micros, 5_500_000);
}
