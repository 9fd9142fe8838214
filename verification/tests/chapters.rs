use media_converter::chapters::Chapter;
use media_converter::metadata::{numbered, ChapterMetadataDocument};

fn names(list: &[&str]) -> Vec<String> {
    list.iter().map(|s| s.to_string()).collect()
}

#[test]
fn chapter_new_keeps_title_and_start() {
    let chapter = Chapter::new("Intro".to_string(), 1500);
    assert_eq!(chapter.title, "Intro");
    assert_eq!(chapter.start_time, 1500);
}

#[test]
fn create_chapters_keeps_order() {
    let chapters = Chapter::create_chapters(vec![
        ("One".to_string(), 0),
        ("Two".to_string(), 5000),
        ("Three".to_string(), 8200),
    ]);
    assert_eq!(chapters.len(), 3);
    assert_eq!(chapters[0].title, "One");
    assert_eq!(chapters[0].start_time, 0);
    assert_eq!(chapters[1].title, "Two");
    assert_eq!(chapters[1].start_time, 5000);
    assert_eq!(chapters[2].title, "Three");
    assert_eq!(chapters[2].start_time, 8200);
}

#[test]
fn create_chapters_of_nothing_is_empty() {
    assert!(Chapter::create_chapters(Vec::new()).is_empty());
}

#[test]
fn write_chapters_lists_seconds_and_titles() {
    let chapters = Chapter::create_chapters(vec![
        ("a".to_string(), 0),
        ("b".to_string(), 5_000_000),
        ("c".to_string(), 8_200_000),
    ]);
    assert_eq!(Chapter::write_chapters(&chapters), "0 - a\n5 - b\n8.2 - c\n");
}

#[test]
fn write_chapters_writes_the_shortest_fraction() {
    let chapters = Chapter::create_chapters(vec![
        ("t".to_string(), 1),
        ("u".to_string(), 50),
        ("v".to_string(), 12_340_000),
        ("w".to_string(), 1_005_000),
        ("x".to_string(), 999_999),
        ("y".to_string(), 100_000),
        ("z".to_string(), 183_457_959),
        ("long".to_string(), 3_600_000_000),
    ]);
    assert_eq!(
        Chapter::write_chapters(&chapters),
        "0.000001 - t\n0.00005 - u\n12.34 - v\n1.005 - w\n0.999999 - x\n0.1 - y\n\
         183.457959 - z\n3600 - long\n"
    );
}

#[test]
fn write_chapters_of_nothing_is_empty() {
    assert_eq!(Chapter::write_chapters(&[]), "");
}

#[test]
fn build_makes_one_chapter_per_duration() {
    let doc = ChapterMetadataDocument::build(&vec![5000, 3200, 1, 0, 700], None, &Vec::new());
    assert_eq!(doc.chapters.len(), 5);
    let starts: Vec<u128> = doc.chapters.iter().map(|c| c.start_time).collect();
    assert_eq!(starts, vec![0, 5000, 8200, 8201, 8201]);
    assert_eq!(doc.end_time, 8901);
}

#[test]
fn build_starts_never_go_down() {
    let durations: Vec<u64> = vec![7, 0, 0, 13, 1, 0, 250, 4];
    let doc = ChapterMetadataDocument::build(&durations, None, &Vec::new());
    let mut sum: u128 = 0;
    for (i, chapter) in doc.chapters.iter().enumerate() {
        assert_eq!(chapter.start_time, sum);
        if i > 0 {
            assert!(doc.chapters[i - 1].start_time <= chapter.start_time);
        }
        sum += durations[i] as u128;
    }
    assert_eq!(doc.end_time, sum);
}

#[test]
fn build_of_nothing_is_the_header_alone() {
    let doc = ChapterMetadataDocument::build(&Vec::new(), None, &Vec::new());
    assert!(doc.chapters.is_empty());
    assert_eq!(doc.end_time, 0);
    assert_eq!(doc.render(), ";FFMETADATA1\n");
}

#[test]
fn build_of_nothing_ignores_names() {
    let overrides = names(&["x", "y"]);
    let fallbacks = names(&["z"]);
    let doc = ChapterMetadataDocument::build(&Vec::new(), Some(&overrides), &fallbacks);
    assert!(doc.chapters.is_empty());
    assert_eq!(doc.render(), ";FFMETADATA1\n");
}

#[test]
fn titles_take_override_then_fallback_then_number() {
    let overrides = names(&["First"]);
    let fallbacks = names(&["f1", "f2"]);
    let doc = ChapterMetadataDocument::build(&vec![10, 20, 30, 40], Some(&overrides), &fallbacks);
    let titles: Vec<&str> = doc.chapters.iter().map(|c| c.title.as_str()).collect();
    assert_eq!(titles, vec!["First", "f2", "Chapter 3", "Chapter 4"]);
}

#[test]
fn titles_without_overrides_take_fallbacks() {
    let fallbacks = names(&["a", "b"]);
    let doc = ChapterMetadataDocument::build(&vec![1, 2, 3], None, &fallbacks);
    let titles: Vec<&str> = doc.chapters.iter().map(|c| c.title.as_str()).collect();
    assert_eq!(titles, vec!["a", "b", "Chapter 3"]);
}

#[test]
fn titles_with_longer_overrides_than_fallbacks() {
    let overrides = names(&["o1", "o2", "o3"]);
    let fallbacks = names(&["f1"]);
    let doc = ChapterMetadataDocument::build(&vec![1, 2, 3, 4], Some(&overrides), &fallbacks);
    let titles: Vec<&str> = doc.chapters.iter().map(|c| c.title.as_str()).collect();
    assert_eq!(titles, vec!["o1", "o2", "o3", "Chapter 4"]);
}

#[test]
fn titles_with_empty_override_list_fall_through() {
    let overrides: Vec<String> = Vec::new();
    let fallbacks = names(&["f1"]);
    let doc = ChapterMetadataDocument::build(&vec![1, 2], Some(&overrides), &fallbacks);
    let titles: Vec<&str> = doc.chapters.iter().map(|c| c.title.as_str()).collect();
    assert_eq!(titles, vec!["f1", "Chapter 2"]);
}

#[test]
fn numbered_titles_count_from_one() {
    assert_eq!(numbered(0), "Chapter 1");
    assert_eq!(numbered(9), "Chapter 10");
    assert_eq!(numbered(122), "Chapter 123");
}

#[test]
fn two_files_give_two_contiguous_chapters() {
    let fallbacks = names(&["a", "b"]);
    let doc = ChapterMetadataDocument::build(&vec![5_000_000, 3_200_000], None, &fallbacks);
    assert_eq!(doc.chapters[0].title, "a");
    assert_eq!(doc.chapters[0].start_time, 0);
    assert_eq!(doc.chapters[1].title, "b");
    assert_eq!(doc.chapters[1].start_time, 5_000_000);
    assert_eq!(doc.end_time, 8_200_000);
    assert_eq!(
        doc.render(),
        ";FFMETADATA1\n\
         [CHAPTER]\nTIMEBASE=1/1000\nSTART=0\nEND=5000\ntitle=a\n\
         [CHAPTER]\nTIMEBASE=1/1000\nSTART=5000\nEND=8200\ntitle=b\n"
    );
}

#[test]
fn render_writes_each_end_as_the_next_start() {
    let doc = ChapterMetadataDocument {
        chapters: Chapter::create_chapters(vec![
            ("x".to_string(), 0),
            ("y z".to_string(), 10_000),
        ]),
        end_time: 25_000,
    };
    assert_eq!(
        doc.render(),
        ";FFMETADATA1\n\
         [CHAPTER]\nTIMEBASE=1/1000\nSTART=0\nEND=10\ntitle=x\n\
         [CHAPTER]\nTIMEBASE=1/1000\nSTART=10\nEND=25\ntitle=y z\n"
    );
}

#[test]
fn sums_beyond_64_bits_are_exact() {
    let doc = ChapterMetadataDocument::build(&vec![u64::MAX, u64::MAX], None, &Vec::new());
    assert_eq!(doc.chapters[1].start_time, 18446744073709551615);
    assert_eq!(doc.end_time, 36893488147419103230);
    assert!(doc
        .render()
        .ends_with("START=18446744073709552\nEND=36893488147419103\ntitle=Chapter 2\n"));
}

#[test]
fn render_rounds_to_the_nearest_millisecond() {
    let doc = ChapterMetadataDocument::build(&vec![1_499, 1, 499, 1], None, &Vec::new());
    let starts: Vec<u128> = doc.chapters.iter().map(|c| c.start_time).collect();
    assert_eq!(starts, vec![0, 1_499, 1_500, 1_999]);
    assert_eq!(doc.end_time, 2_000);
    assert_eq!(
        doc.render(),
        ";FFMETADATA1\n\
         [CHAPTER]\nTIMEBASE=1/1000\nSTART=0\nEND=1\ntitle=Chapter 1\n\
         [CHAPTER]\nTIMEBASE=1/1000\nSTART=1\nEND=2\ntitle=Chapter 2\n\
         [CHAPTER]\nTIMEBASE=1/1000\nSTART=2\nEND=2\ntitle=Chapter 3\n\
         [CHAPTER]\nTIMEBASE=1/1000\nSTART=2\nEND=2\ntitle=Chapter 4\n"
    );
}

#[test]
fn rounding_follows_the_running_sum_not_each_file() {
    // Three files of 0.4 ms each: the third chapter starts 0.8 ms in, which
    // is written as 1 ms, and the stream ends 1.2 ms in.
    let doc = ChapterMetadataDocument::build(&vec![400, 400, 400], None, &Vec::new());
    assert!(doc.render().ends_with("START=1\nEND=1\ntitle=Chapter 3\n"));
    assert!(doc.render().contains("START=0\nEND=0\ntitle=Chapter 1\n"));
    assert!(doc.render().contains("START=0\nEND=1\ntitle=Chapter 2\n"));
}
