use tunetagger::apple::{apple_search_url, candidate_from_apple_track, AppleTrack};
use tunetagger::model::{ExistingTags, MetadataCandidate, MetadataSource, TrackIdentity};
use tunetagger::musicbrainz::{
    assemble_enrichment, best_recording_index, best_release_index, build_recording_query,
    infer_album_artist_only_if_safe, normalize, normalize_name_list, recording_composer,
    recording_composer_sources, recording_search_url, select_best_recording, work_composers,
    MusicBrainzArtist, MusicBrainzArtistCredit, MusicBrainzEnrichment, MusicBrainzRecording,
    MusicBrainzRelation, MusicBrainzRelease, MusicBrainzWork,
};
use tunetagger::scoring::{best_candidate, eq_norm, rank_candidates, score_candidate, score_candidates};
use tunetagger::tags::{resolve_album_artist, resolve_composer};

fn identity(title: &str, artist: &str, album: Option<&str>, duration: Option<u64>) -> TrackIdentity {
    TrackIdentity {
        title: title.into(),
        artist: artist.into(),
        album: album.map(String::from),
        album_artist: None,
        duration_ms: duration,
        isrc: None,
    }
}

fn candidate(title: &str, artist: &str, album: Option<&str>, confidence: u32) -> MetadataCandidate {
    MetadataCandidate {
        source: MetadataSource::Apple,
        title: title.into(),
        artist: artist.into(),
        album: album.map(String::from),
        album_artist: None,
        track_number: None,
        track_total: None,
        disc_number: None,
        disc_total: None,
        release_date: None,
        genre: None,
        composer: None,
        explicit: None,
        artwork_url: None,
        duration_ms: None,
        confidence,
    }
}

fn no_tags() -> ExistingTags {
    ExistingTags {
        title: None,
        artist: None,
        album: None,
        album_artist: None,
        composer: None,
        genre: None,
        release_date: None,
        track_number: None,
        disc_number: None,
        has_artwork: false,
        has_lyrics: false,
    }
}

fn credit(name: &str, artist: Option<&str>) -> MusicBrainzArtistCredit {
    MusicBrainzArtistCredit {
        name: name.into(),
        artist: artist.map(|a| MusicBrainzArtist { name: a.into() }),
    }
}

#[test]
fn clean_title_artist_album_match_scores_ninety() {
    let id = identity("No Controles", "Flans", Some("Flans"), None);
    let c = candidate("No controles", "FLANS", Some("Flans"), 0);
    assert_eq!(score_candidate(&id, &c, 3), 90);
    let mut c = candidate("No Controles", "Flans", Some("Flans"), 0);
    c.duration_ms = Some(200_000);
    assert_eq!(score_candidate(&id, &c, 3), 90);
    let id = identity("No Controles", "Flans", Some("Flans"), Some(200_000));
    c.duration_ms = Some(202_500);
    assert_eq!(score_candidate(&id, &c, 3), 100);
    assert_eq!(score_candidate(&id, &c, 2), 90);
}

#[test]
fn score_ignores_case_and_punctuation() {
    assert!(eq_norm("Don't Stop!", "dont stop"));
    assert!(!eq_norm("Stop", "Start"));
    let id = identity("A", "B", None, None);
    assert_eq!(score_candidate(&id, &candidate("x", "y", Some("z"), 0), 5), 0);
}

#[test]
fn ranking_is_stable_and_best_first() {
    let list = vec![
        candidate("a", "", None, 30),
        candidate("b", "", None, 90),
        candidate("c", "", None, 30),
        candidate("d", "", None, 60),
    ];
    let ranked = rank_candidates(list.clone());
    let titles: Vec<&str> = ranked.iter().map(|c| c.title.as_str()).collect();
    assert_eq!(titles, vec!["b", "d", "a", "c"]);
    assert_eq!(best_candidate(list).unwrap().title, "b");
    assert!(best_candidate(vec![]).is_none());
}

#[test]
fn scoring_every_candidate_keeps_the_order() {
    let id = identity("Song", "Artist", None, None);
    let scored = score_candidates(
        &id,
        vec![candidate("Song", "Other", None, 7), candidate("Song", "Artist", None, 7)],
        3,
    );
    assert_eq!(scored[0].confidence, 35);
    assert_eq!(scored[1].confidence, 70);
}

#[test]
fn musicbrainz_normalization() {
    assert_eq!(normalize("  Simon & Garfunkel!! "), "simon and garfunkel");
    assert_eq!(normalize("Hello,\tWorld"), "hello world");
    let once = normalize(" A -- B && C ");
    assert_eq!(once, "a b andand c");
    assert!(!once.contains("  ") && !once.starts_with(' ') && !once.ends_with(' '));
    assert_eq!(normalize(&once), once);
}

#[test]
fn album_artist_is_inferred_only_when_safe() {
    let id = identity("Song", "Flans", Some("Flans"), None);
    let c = candidate("Song", "  Flans ", Some("FLANS!"), 0);
    assert_eq!(infer_album_artist_only_if_safe(&id, &c), Some(String::from("Flans")));
    let c = candidate("Song", "Flans feat. Someone", Some("Flans"), 0);
    assert_eq!(infer_album_artist_only_if_safe(&id, &c), None);
    let c = candidate("Song", "Flans", Some("Original Motion Picture Soundtrack"), 0);
    assert_eq!(infer_album_artist_only_if_safe(&id, &c), None);
    let c = candidate("Song", "Flans", Some("Another Album"), 0);
    assert_eq!(infer_album_artist_only_if_safe(&id, &c), None);
    let c = candidate("Song", "   ", Some("Flans"), 0);
    assert_eq!(infer_album_artist_only_if_safe(&id, &c), None);
    let c = candidate("Song", "Flans", None, 0);
    assert_eq!(infer_album_artist_only_if_safe(&id, &c), None);
}

#[test]
fn recording_query_quotes_each_field() {
    let c = candidate("Song", "Band", Some("Album"), 0);
    assert_eq!(
        build_recording_query(&c),
        "recording:\"Song\" AND artist:\"Band\" AND release:\"Album\""
    );
    let c = candidate("Song", "Band", None, 0);
    assert_eq!(build_recording_query(&c), "recording:\"Song\" AND artist:\"Band\"");
    assert_eq!(
        recording_search_url(&c),
        "https://musicbrainz.org/ws/2/recording?query=recording%3A%22Song%22%20AND%20artist%3A%22Band%22&fmt=json&limit=10"
    );
}

#[test]
fn best_recording_is_the_last_highest_scoring_match() {
    let recs = vec![
        MusicBrainzRecording { id: "1".into(), title: "Song".into(), score: Some(80), artist_credit: vec![credit("Band", None)] },
        MusicBrainzRecording { id: "2".into(), title: "Other".into(), score: Some(100), artist_credit: vec![credit("Band", None)] },
        MusicBrainzRecording { id: "3".into(), title: "song".into(), score: Some(90), artist_credit: vec![credit("X", Some("band"))] },
        MusicBrainzRecording { id: "4".into(), title: "SONG".into(), score: Some(90), artist_credit: vec![credit("band", None)] },
        MusicBrainzRecording { id: "5".into(), title: "Song".into(), score: None, artist_credit: vec![credit("Band", None)] },
    ];
    assert_eq!(best_recording_index(&recs, "Song", "Band"), Some(3));
    assert_eq!(best_recording_index(&recs, "Nothing", "Band"), None);
    let c = candidate("Song", "Band", None, 0);
    assert_eq!(select_best_recording(recs, &c).unwrap().id, "4");
}

#[test]
fn best_release_prefers_exact_then_partial_album_titles() {
    let rel = |id: &str, title: &str| MusicBrainzRelease { id: id.into(), title: title.into(), artist_credit: vec![] };
    let releases = vec![rel("a", "Greatest Hits"), rel("b", "Flans (Deluxe)"), rel("c", "Flans"), rel("d", "Flans")];
    assert_eq!(best_release_index(&releases, &Some("Flans".into())), Some(2));
    assert_eq!(best_release_index(&releases, &Some("Flans Deluxe Edition".into())), Some(1));
    assert_eq!(best_release_index(&releases, &Some("Nothing".into())), Some(0));
    assert_eq!(best_release_index(&releases, &None), Some(0));
    assert_eq!(best_release_index(&vec![], &None), None);
}

#[test]
fn release_album_artist_joins_credits() {
    let release = MusicBrainzRelease {
        id: "r".into(),
        title: "t".into(),
        artist_credit: vec![credit(" Simon ", None), credit("", Some(" Garfunkel")), credit(" ", Some(""))],
    };
    assert_eq!(release.artist_credit_name(), Some(String::from("Simon & Garfunkel")));
    let empty = MusicBrainzRelease { id: "r".into(), title: "t".into(), artist_credit: vec![credit("", None)] };
    assert_eq!(empty.artist_credit_name(), None);
    let e = assemble_enrichment("rec".into(), Some(release), Some("C".into()));
    assert_eq!(e.album_artist.as_deref(), Some("Simon & Garfunkel"));
    assert_eq!(e.release_title.as_deref(), Some("t"));
    assert_eq!(e.release_id.as_deref(), Some("r"));
    assert_eq!(e.recording_id.as_deref(), Some("rec"));
    assert_eq!(e.composer.as_deref(), Some("C"));
    let none = MusicBrainzEnrichment::default();
    assert!(none.album_artist.is_none() && none.recording_id.is_none());
}

#[test]
fn composer_credit_is_sorted_distinct_and_order_free() {
    let names = vec![" Zed ".to_string(), "Amy".into(), "".into(), "Zed".into(), "  ".into()];
    assert_eq!(normalize_name_list(names), Some(String::from("Amy; Zed")));
    let reordered = vec!["Zed".to_string(), "Amy".into()];
    assert_eq!(normalize_name_list(reordered), Some(String::from("Amy; Zed")));
    assert_eq!(normalize_name_list(vec![" ".into()]), None);
}

#[test]
fn composer_sources_and_work_composers() {
    let rel = |kind: &str, artist: Option<&str>, work: Option<&str>| MusicBrainzRelation {
        relation_type: kind.into(),
        artist: artist.map(|a| MusicBrainzArtist { name: a.into() }),
        work: work.map(|w| MusicBrainzWork { id: w.into() }),
    };
    let rels = vec![
        rel("composer", Some(" B Writer "), None),
        rel("performance", None, Some("w1")),
        rel("producer", Some("P"), None),
        rel("recording of", None, Some("w2")),
        rel("composer", Some("   "), None),
    ];
    let (direct, works) = recording_composer_sources(&rels);
    assert_eq!(direct, vec![String::from("B Writer")]);
    assert_eq!(works, vec![String::from("w1"), String::from("w2")]);
    let work_rels = vec![rel("lyricist", Some("C"), None), rel("writer", Some("A"), None), rel("composer", Some("C"), None), rel("arranger", Some("D"), None)];
    let wc = work_composers(&work_rels);
    assert_eq!(wc, vec![String::from("A"), String::from("C")]);
    assert_eq!(recording_composer(direct, vec![wc]), Some(String::from("A; B Writer; C")));
}

#[test]
fn apple_results_become_candidates() {
    let track = AppleTrack {
        track_name: Some("No Controles".into()),
        artist_name: None,
        collection_name: Some("Flans".into()),
        collection_artist_name: Some("Flans".into()),
        track_number: Some(7),
        track_count: Some(10),
        disc_number: Some(1),
        disc_count: Some(1),
        release_date: Some("1985-01-01T08:00:00Z".into()),
        primary_genre_name: Some("Pop Latino".into()),
        track_explicitness: Some("notExplicit".into()),
        artwork_url100: Some("https://x/100x100bb.jpg".into()),
        track_time_millis: Some(1000),
    };
    let c = candidate_from_apple_track(track);
    assert_eq!(c.title, "No Controles");
    assert_eq!(c.artist, "");
    assert_eq!(c.artwork_url.as_deref(), Some("https://x/1200x1200bb.jpg"));
    assert_eq!(c.explicit, Some(false));
    assert_eq!(c.confidence, 0);
    assert!(c.composer.is_none());
    let id = identity("Título", "A&B", None, None);
    assert_eq!(
        apple_search_url(&id),
        "https://itunes.apple.com/search?media=music&entity=song&limit=10&term=A%26B%20T%C3%ADtulo"
    );
}

#[test]
fn album_artist_and_composer_priorities() {
    let id = identity("Song", "Flans", Some("Flans"), None);
    let mut c = candidate("Song", "Flans", Some("Flans"), 0);
    let mut existing = no_tags();
    existing.album_artist = Some("Existing".into());
    existing.composer = Some("Old Composer".into());
    let enrichment = Some(MusicBrainzEnrichment {
        album_artist: Some("MB Artist".into()),
        composer: Some("MB Composer".into()),
        release_title: None,
        release_id: None,
        recording_id: None,
    });
    c.album_artist = Some("Apple Artist".into());
    assert_eq!(resolve_album_artist(&c, &enrichment, &existing, &id).as_deref(), Some("Apple Artist"));
    c.album_artist = None;
    assert_eq!(resolve_album_artist(&c, &enrichment, &existing, &id).as_deref(), Some("MB Artist"));
    assert_eq!(resolve_album_artist(&c, &None, &existing, &id).as_deref(), Some("Existing"));
    assert_eq!(resolve_album_artist(&c, &None, &no_tags(), &id).as_deref(), Some("Flans"));
    assert_eq!(resolve_composer(&enrichment, &existing).as_deref(), Some("MB Composer"));
    assert_eq!(resolve_composer(&None, &existing).as_deref(), Some("Old Composer"));
    assert_eq!(resolve_composer(&None, &no_tags()), None);
}
