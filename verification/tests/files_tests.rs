use tunetagger::batch::{exclude_destination, mp3_file, BatchArgs, ExistingPolicy};
use tunetagger::commands::{batch_tag_args, should_write, tag_target, TagArgs};
use tunetagger::model::ResolvedTags;
use tunetagger::naming::{render_filename, with_mp3_extension};
use tunetagger::paths::{destination_path, is_mp3, sidecar_path_for};
use tunetagger::tags::{
    cover_art, existing_tags_from, normalize_mime_type, parse_i32, parse_release_year, plan_tag_edits, TagEdit,
    TextFrame,
};

fn tags() -> ResolvedTags {
    ResolvedTags {
        title: "Song/Name".into(),
        artist: "Band".into(),
        album: None,
        album_artist: None,
        track_number: Some(7),
        track_total: None,
        disc_number: None,
        disc_total: Some(2),
        release_date: Some("1985-05-01".into()),
        genre: None,
        composer: Some("C".into()),
        sort_artist: None,
        sort_album: None,
        sort_album_artist: Some("S".into()),
        lyrics: None,
    }
}

#[test]
fn sidecar_sits_next_to_the_input() {
    assert_eq!(sidecar_path_for("music/song.mp3"), "music/song.tunetagger.json");
    assert_eq!(sidecar_path_for("music/song"), "music/song.tunetagger.json");
}

#[test]
fn destination_keeps_the_file_name() {
    assert_eq!(destination_path("out", "in/a b.mp3"), "out/a b.mp3");
    assert_eq!(destination_path("out/", "x.mp3"), "out/x.mp3");
}

#[test]
fn mp3_detection_ignores_case() {
    assert!(is_mp3("a/b.MP3"));
    assert!(is_mp3("b.mp3"));
    assert!(!is_mp3("b.mp4"));
    assert!(!is_mp3("mp3"));
}

#[test]
fn rendered_names_end_in_mp3() {
    let t = tags();
    assert_eq!(render_filename("{artist} - {title}", &t, false), "Band - Song/Name.mp3");
    assert_eq!(render_filename("{artist} - {title}.MP3", &t, true), "Band - SongName.MP3");
    assert_eq!(render_filename("{album}{title}.mp3", &t, false), "Song/Name.mp3");
    assert_eq!(render_filename("a<b>:c|d?e*f\"g\\h", &t, true), "abcdefgh.mp3");
}

#[test]
fn mp3_extension_is_added_once() {
    assert_eq!(with_mp3_extension("song".into()), "song.mp3");
    assert_eq!(with_mp3_extension("song.Mp3".into()), "song.Mp3");
    assert_eq!(with_mp3_extension("song.mp3.txt".into()), "song.mp3.txt.mp3");
}

#[test]
fn mime_types_are_normalized() {
    assert_eq!(normalize_mime_type("image/png; charset=x"), "image/png");
    assert_eq!(normalize_mime_type(" image/png "), "image/png");
    assert_eq!(normalize_mime_type("image/jpg"), "image/jpeg");
    assert_eq!(normalize_mime_type("image/gif"), "image/jpeg");
    assert_eq!(normalize_mime_type(""), "image/jpeg");
}

#[test]
fn release_years_parse_like_str_parse() {
    assert_eq!(parse_release_year("1985-05-01"), Some(1985));
    assert_eq!(parse_release_year("2001"), Some(2001));
    assert_eq!(parse_release_year("85"), Some(85));
    assert_eq!(parse_release_year("-12"), Some(-12));
    assert_eq!(parse_release_year("+7"), Some(7));
    assert_eq!(parse_release_year("abcd"), None);
    assert_eq!(parse_release_year(""), None);
    assert_eq!(parse_release_year("é999"), None);
    assert_eq!(parse_release_year("99999999999"), Some(9999));
    let digits = |s: &str| s.chars().collect::<Vec<char>>();
    assert_eq!(parse_i32(&digits("2147483647")), Some(i32::MAX));
    assert_eq!(parse_i32(&digits("-2147483648")), Some(i32::MIN));
    assert_eq!(parse_i32(&digits("2147483648")), None);
    assert_eq!(parse_i32(&digits("-")), None);
    assert_eq!(parse_i32(&digits("12a")), None);
}

#[test]
fn tag_edits_follow_the_resolved_tags() {
    let edits = plan_tag_edits(&tags());
    assert_eq!(edits.len(), 7);
    assert!(matches!(&edits[0], TagEdit::Title(t) if t == "Song/Name"));
    assert!(matches!(&edits[1], TagEdit::Artist(a) if a == "Band"));
    assert!(matches!(edits[2], TagEdit::Track(7)));
    assert!(matches!(edits[3], TagEdit::TotalDiscs(2)));
    assert!(matches!(edits[4], TagEdit::Year(1985)));
    assert!(matches!(&edits[5], TagEdit::Text(TextFrame::Composer, c) if c == "C"));
    assert!(matches!(&edits[6], TagEdit::Text(TextFrame::SortAlbumArtist, s) if s == "S"));
    assert_eq!(TextFrame::SortAlbumArtist.frame_id(), "TSO2");
}

#[test]
fn existing_tags_keep_what_fits() {
    let t = existing_tags_from(
        Some("T".into()), None, None, None, None, None, Some(-5), Some(70_000), Some(3), true, false,
    );
    assert_eq!(t.release_date.as_deref(), Some("-5"));
    assert_eq!(t.track_number, None);
    assert_eq!(t.disc_number, Some(3));
    assert!(t.has_artwork && !t.has_lyrics);
}

#[test]
fn nested_destination_is_excluded_from_batches() {
    let files = vec![
        mp3_file("src/a.mp3".into(), 1),
        mp3_file("src/out/a.mp3".into(), 2),
        mp3_file("src/sub/b.mp3".into(), 3),
    ];
    let kept = exclude_destination(files.clone(), "src", "src/out");
    let paths: Vec<&str> = kept.iter().map(|f| f.path.as_str()).collect();
    assert_eq!(paths, vec!["src/a.mp3", "src/sub/b.mp3"]);
    let ancestor =
        exclude_destination(vec![mp3_file("music/src/a.mp3".into(), 1)], "music/src", "music");
    assert_eq!(ancestor.len(), 1);
    let outside = exclude_destination(files.clone(), "src", "/srv");
    assert_eq!(outside.len(), 3);
    let same = exclude_destination(files, "src", "src");
    assert_eq!(same.len(), 3);
    assert_eq!(same[0].extension, "mp3");
}

#[test]
fn tag_targets_and_write_mode() {
    let args = TagArgs { path: "in/s.mp3".into(), dry_run: false, write: true, output: Some("out".into()) };
    assert!(should_write(&args));
    assert_eq!(tag_target(&args), "out/s.mp3");
    let dry = TagArgs { dry_run: true, ..args.clone() };
    assert!(!should_write(&dry));
    let inplace = TagArgs { output: None, ..args };
    assert_eq!(tag_target(&inplace), "in/s.mp3");
}

#[test]
fn batch_files_are_tagged_into_the_output() {
    let b = BatchArgs {
        path: "in".into(),
        output: "out".into(),
        recursive: false,
        write: true,
        dry_run: false,
        report: "r.txt".into(),
        existing: ExistingPolicy::Ask,
    };
    let t = batch_tag_args("in/x.mp3".into(), &b);
    assert_eq!(t.output.as_deref(), Some("out"));
    assert!(t.write && !t.dry_run);
}

#[test]
fn cover_art_is_one_plain_front_cover() {
    let cover = cover_art(vec![1, 2, 3], "image/png; charset=x");
    assert_eq!(cover.mime_type, "image/png");
    assert_eq!(cover.description, "");
    assert_eq!(cover.data, vec![1, 2, 3]);
    assert_eq!(cover_art(vec![], "image/gif").mime_type, "image/jpeg");
}
