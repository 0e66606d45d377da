//! MusicBrainz enrichment: the search query, choosing the matching
//! recording and release, the album artist of a release, composer credits,
//! and the conservative album-artist fallback.

use vstd::prelude::*;
use crate::model::{MetadataCandidate, TrackIdentity};
use crate::order::{join, join_strings, sort_dedup, sorted_distinct, strictly_sorted, views};
use crate::text::{
    is_white_space, lemma_collapse_is_single_spaced, single_spaced, chars_eq_str, chars_of, collapse_whitespace, collapse_whitespace_chars, contains,
    contains_chars, occurs_at, opt_text, replace_all, replace_chars, string_of, trim, trim_chars,
};
use crate::unicode::{
    keep_words_chars, keep_words_chars_exec, to_lowercase, unicode_alphanumeric, unicode_lowercase,
};
use crate::urls::{percent_encode, url_encode};
use vstd::utf8::encode_utf8;

verus! {

/// A credited artist.
#[derive(Clone, Debug)]
pub struct MusicBrainzArtist {
    pub name: String,
}

/// One artist credit of a recording or release.
#[derive(Clone, Debug)]
pub struct MusicBrainzArtistCredit {
    pub name: String,
    pub artist: Option<MusicBrainzArtist>,
}

/// A recording found by a MusicBrainz search.
#[derive(Clone, Debug)]
pub struct MusicBrainzRecording {
    pub id: String,
    pub title: String,
    pub score: Option<u16>,
    pub artist_credit: Vec<MusicBrainzArtistCredit>,
}

/// A release that contains a recording.
#[derive(Clone, Debug)]
pub struct MusicBrainzRelease {
    pub id: String,
    pub title: String,
    pub artist_credit: Vec<MusicBrainzArtistCredit>,
}

/// A work related to a recording.
#[derive(Clone, Debug)]
pub struct MusicBrainzWork {
    pub id: String,
}

/// A relationship of a recording or work.
#[derive(Clone, Debug)]
pub struct MusicBrainzRelation {
    pub relation_type: String,
    pub artist: Option<MusicBrainzArtist>,
    pub work: Option<MusicBrainzWork>,
}

/// What MusicBrainz added to a candidate.
#[derive(Clone, Debug)]
pub struct MusicBrainzEnrichment {
    pub album_artist: Option<String>,
    pub composer: Option<String>,
    pub release_title: Option<String>,
    pub release_id: Option<String>,
    pub recording_id: Option<String>,
}

impl Default for MusicBrainzEnrichment {
    fn default() -> (r: MusicBrainzEnrichment)
        ensures
            r.album_artist is None,
            r.composer is None,
            r.release_title is None,
            r.release_id is None,
            r.recording_id is None,
    {
        MusicBrainzEnrichment {
            album_artist: None,
            composer: None,
            release_title: None,
            release_id: None,
            recording_id: None,
        }
    }
}

/// The form in which MusicBrainz names and titles are compared: trimmed,
/// lowercased, `&` spelled "and", everything but letters, digits and white
/// space dropped, and the words joined by single spaces.
pub open spec fn normalized(value: Seq<char>) -> Seq<char> {
    collapse_whitespace(keep_words_chars(replace_all(unicode_lowercase(trim(value)), "&"@, "and"@)))
}

proof fn lemma_kept_chars(s: Seq<char>)
    ensures
        forall|i: int|
            0 <= i < keep_words_chars(s).len() ==> unicode_alphanumeric(
                #[trigger] keep_words_chars(s)[i],
            ) || is_white_space(keep_words_chars(s)[i]),
    decreases s.len(),
{
    if s.len() > 0 {
        lemma_kept_chars(s.drop_last());
        let prev = keep_words_chars(s.drop_last());
        assert forall|i: int| 0 <= i < keep_words_chars(s).len() implies unicode_alphanumeric(
            #[trigger] keep_words_chars(s)[i],
        ) || is_white_space(keep_words_chars(s)[i]) by {
            if i < prev.len() {
                assert(keep_words_chars(s)[i] == prev[i]);
            }
        }
    }
}

/// A normalized text is words of letters and digits joined by single
/// spaces: no leading, trailing or doubled space, and nothing but
/// alphanumeric characters and spaces.
pub proof fn lemma_normalized_is_clean(value: Seq<char>)
    ensures
        single_spaced(normalized(value)),
        forall|i: int|
            0 <= i < normalized(value).len() ==> #[trigger] normalized(value)[i] == ' '
                || unicode_alphanumeric(normalized(value)[i]),
{
    let k = keep_words_chars(replace_all(unicode_lowercase(trim(value)), "&"@, "and"@));
    lemma_kept_chars(replace_all(unicode_lowercase(trim(value)), "&"@, "and"@));
    lemma_collapse_is_single_spaced(k);
    let n = normalized(value);
    assert forall|i: int| 0 <= i < n.len() implies #[trigger] n[i] == ' ' || unicode_alphanumeric(
        n[i],
    ) by {
        if n[i] != ' ' {
            let j = choose|j: int| 0 <= j < k.len() && k[j] == n[i];
            assert(unicode_alphanumeric(k[j]) || is_white_space(k[j]));
        }
    }
}

/// Normalizes a name or title for comparison.
pub fn normalize(value: &str) -> (r: String)
    ensures
        r@ == normalized(value@),
        single_spaced(r@),
        forall|i: int| 0 <= i < r@.len() ==> #[trigger] r@[i] == ' ' || unicode_alphanumeric(r@[i]),
{
    proof {
        lemma_normalized_is_clean(value@);
    }
    let c = chars_of(value);
    let t = trim_chars(&c);
    let ts = string_of(&t);
    let low = to_lowercase(ts.as_str());
    let lc = chars_of(low.as_str());
    let amp = chars_of("&");
    let and = chars_of("and");
    proof {
        reveal_strlit("&");
    }
    let replaced = replace_chars(&lc, &amp, &and);
    let kept = keep_words_chars_exec(&replaced);
    let collapsed = collapse_whitespace_chars(&kept);
    string_of(&collapsed)
}

/// The album titles that suggest a compilation or soundtrack, whose album
/// artist cannot be guessed from the track artist.
pub open spec fn risky_album_title(album: Seq<char>) -> bool {
    ||| contains(album, "soundtrack"@)
    ||| contains(album, "original motion picture"@)
    ||| contains(album, "various artists"@)
    ||| contains(album, "compilation"@)
    ||| contains(album, "tribute"@)
    ||| contains(album, "hits of"@)
    ||| contains(album, "best of the"@)
    ||| contains(album, "now that's what i call"@)
    ||| contains(album, "now thats what i call"@)
    ||| contains(album, "motion picture"@)
    ||| contains(album, "movie"@)
    ||| contains(album, "banda sonora"@)
    ||| contains(album, "original soundtrack"@)
    ||| contains(album, "music from"@)
}

/// The artist credits that name more than one artist.
pub open spec fn risky_artist_credit(artist: Seq<char>) -> bool {
    ||| contains(artist, " feat. "@)
    ||| contains(artist, " ft. "@)
    ||| contains(artist, " featuring "@)
    ||| contains(artist, " & "@)
    ||| contains(artist, " and "@)
    ||| contains(artist, ","@)
    ||| contains(artist, " x "@)
    ||| contains(artist, " vs. "@)
    ||| contains(artist, " with "@)
    ||| contains(artist, " con "@)
}

/// The album artist inferred from the track artist, only when that is
/// safe: the candidate names one artist (trimmed, non-empty), its album is
/// no compilation or soundtrack, and the recognized album is the same
/// album once normalized.
pub open spec fn inferred_album_artist(
    identity_album: Option<Seq<char>>,
    candidate_artist: Seq<char>,
    candidate_album: Option<Seq<char>>,
) -> Option<Seq<char>> {
    let artist = trim(candidate_artist);
    if artist.len() == 0 {
        None
    } else {
        match candidate_album {
            None => None,
            Some(album) => if risky_album_title(unicode_lowercase(album)) || risky_artist_credit(
                unicode_lowercase(artist),
            ) {
                None
            } else {
                match identity_album {
                    Some(ia) => if normalized(ia) == normalized(album) {
                        Some(artist)
                    } else {
                        None
                    },
                    None => None,
                }
            },
        }
    }
}

/// The track artist is taken as album artist only when it is safe: never
/// without a recognized album, a candidate album or a non-blank artist;
/// never for a soundtrack, compilation or similar album, or for a credit
/// naming several artists; and then exactly when the recognized album and
/// the candidate's album normalize alike, as the trimmed artist.
pub proof fn lemma_album_artist_inference_rule(
    identity_album: Option<Seq<char>>,
    artist: Seq<char>,
    candidate_album: Option<Seq<char>>,
)
    ensures
        identity_album is None || candidate_album is None || trim(artist).len() == 0
            ==> inferred_album_artist(identity_album, artist, candidate_album) is None,
        candidate_album matches Some(album) ==> (contains(unicode_lowercase(album), "soundtrack"@) || contains(unicode_lowercase(album), "original motion picture"@) || contains(unicode_lowercase(album), "various artists"@) || contains(unicode_lowercase(album), "compilation"@) || contains(unicode_lowercase(album), "tribute"@) || contains(unicode_lowercase(album), "hits of"@) || contains(unicode_lowercase(album), "best of the"@) || contains(unicode_lowercase(album), "now that's what i call"@) || contains(unicode_lowercase(album), "now thats what i call"@) || contains(unicode_lowercase(album), "motion picture"@) || contains(unicode_lowercase(album), "movie"@) || contains(unicode_lowercase(album), "banda sonora"@) || contains(unicode_lowercase(album), "original soundtrack"@) || contains(unicode_lowercase(album), "music from"@)
            ==> inferred_album_artist(identity_album, artist, candidate_album) is None),
        contains(unicode_lowercase(trim(artist)), " feat. "@) || contains(unicode_lowercase(trim(artist)), " ft. "@) || contains(unicode_lowercase(trim(artist)), " featuring "@) || contains(unicode_lowercase(trim(artist)), " & "@) || contains(unicode_lowercase(trim(artist)), " and "@) || contains(unicode_lowercase(trim(artist)), ","@) || contains(unicode_lowercase(trim(artist)), " x "@) || contains(unicode_lowercase(trim(artist)), " vs. "@) || contains(unicode_lowercase(trim(artist)), " with "@) || contains(unicode_lowercase(trim(artist)), " con "@) ==> inferred_album_artist(identity_album, artist, candidate_album) is None,
        inferred_album_artist(identity_album, artist, candidate_album) matches Some(x) ==> (x
            == trim(artist) && identity_album is Some && candidate_album is Some && normalized(
            identity_album->0,
        ) == normalized(candidate_album->0)),
        identity_album is Some && candidate_album is Some && trim(artist).len() > 0 && !contains(unicode_lowercase(candidate_album->0), "soundtrack"@) && !contains(unicode_lowercase(candidate_album->0), "original motion picture"@) && !contains(unicode_lowercase(candidate_album->0), "various artists"@) && !contains(unicode_lowercase(candidate_album->0), "compilation"@) && !contains(unicode_lowercase(candidate_album->0), "tribute"@) && !contains(unicode_lowercase(candidate_album->0), "hits of"@) && !contains(unicode_lowercase(candidate_album->0), "best of the"@) && !contains(unicode_lowercase(candidate_album->0), "now that's what i call"@) && !contains(unicode_lowercase(candidate_album->0), "now thats what i call"@) && !contains(unicode_lowercase(candidate_album->0), "motion picture"@) && !contains(unicode_lowercase(candidate_album->0), "movie"@) && !contains(unicode_lowercase(candidate_album->0), "banda sonora"@) && !contains(unicode_lowercase(candidate_album->0), "original soundtrack"@) && !contains(unicode_lowercase(candidate_album->0), "music from"@) && !contains(unicode_lowercase(trim(artist)), " feat. "@) && !contains(unicode_lowercase(trim(artist)), " ft. "@) && !contains(unicode_lowercase(trim(artist)), " featuring "@) && !contains(unicode_lowercase(trim(artist)), " & "@) && !contains(unicode_lowercase(trim(artist)), " and "@) && !contains(unicode_lowercase(trim(artist)), ","@) && !contains(unicode_lowercase(trim(artist)), " x "@) && !contains(unicode_lowercase(trim(artist)), " vs. "@) && !contains(unicode_lowercase(trim(artist)), " with "@) && !contains(unicode_lowercase(trim(artist)), " con "@)
            && normalized(identity_album->0) == normalized(candidate_album->0) ==> inferred_album_artist(
            identity_album,
            artist,
            candidate_album,
        ) == Some(trim(artist)),
{
}

fn mentions(m: &Vec<char>, word: &str) -> (r: bool)
    ensures
        r == contains(m@, word@),
{
    let w = chars_of(word);
    contains_chars(m, &w)
}

fn is_risky_album(album: &Vec<char>) -> (r: bool)
    ensures
        r == risky_album_title(album@),
{
    mentions(album, "soundtrack") || mentions(album, "original motion picture") || mentions(
        album,
        "various artists",
    ) || mentions(album, "compilation") || mentions(album, "tribute") || mentions(album, "hits of")
        || mentions(album, "best of the") || mentions(album, "now that's what i call") || mentions(
        album,
        "now thats what i call",
    ) || mentions(album, "motion picture") || mentions(album, "movie") || mentions(
        album,
        "banda sonora",
    ) || mentions(album, "original soundtrack") || mentions(album, "music from")
}

fn is_risky_artist(artist: &Vec<char>) -> (r: bool)
    ensures
        r == risky_artist_credit(artist@),
{
    mentions(artist, " feat. ") || mentions(artist, " ft. ") || mentions(artist, " featuring ")
        || mentions(artist, " & ") || mentions(artist, " and ") || mentions(artist, ",")
        || mentions(artist, " x ") || mentions(artist, " vs. ") || mentions(artist, " with ")
        || mentions(artist, " con ")
}

/// Infers the album artist from the track artist when that is low-risk.
pub fn infer_album_artist_only_if_safe(
    identity: &TrackIdentity,
    candidate: &MetadataCandidate,
) -> (r: Option<String>)
    ensures
        opt_text(r) == inferred_album_artist(
            opt_text(identity.album),
            candidate.artist@,
            opt_text(candidate.album),
        ),
{
    let ac = chars_of(candidate.artist.as_str());
    let artist_c = trim_chars(&ac);
    if artist_c.len() == 0 {
        return None;
    }
    let artist = string_of(&artist_c);
    let candidate_album = match &candidate.album {
        Some(a) => a,
        None => {
            return None;
        },
    };
    let album_low = to_lowercase(candidate_album.as_str());
    let album_c = chars_of(album_low.as_str());
    let artist_low = to_lowercase(artist.as_str());
    let artist_low_c = chars_of(artist_low.as_str());
    if is_risky_album(&album_c) || is_risky_artist(&artist_low_c) {
        return None;
    }
    let matches = match &identity.album {
        Some(identity_album) => normalize(identity_album.as_str()) == normalize(
            candidate_album.as_str(),
        ),
        None => false,
    };
    if matches {
        Some(artist)
    } else {
        None
    }
}

/// The MusicBrainz search query for a candidate: its title and artist, and
/// its album when known, each quoted and joined by " AND ".
pub open spec fn recording_query_text(
    title: Seq<char>,
    artist: Seq<char>,
    album: Option<Seq<char>>,
) -> Seq<char> {
    let base = "recording:\""@ + title + "\""@ + " AND "@ + "artist:\""@ + artist + "\""@;
    match album {
        Some(a) => base + " AND "@ + "release:\""@ + a + "\""@,
        None => base,
    }
}

/// Builds the recording search query for a candidate.
pub fn build_recording_query(candidate: &MetadataCandidate) -> (r: String)
    ensures
        r@ == recording_query_text(
            candidate.title@,
            candidate.artist@,
            opt_text(candidate.album),
        ),
{
    let mut q = String::new();
    q.append("recording:\"");
    q.append(candidate.title.as_str());
    q.append("\"");
    q.append(" AND ");
    q.append("artist:\"");
    q.append(candidate.artist.as_str());
    q.append("\"");
    if let Some(album) = &candidate.album {
        q.append(" AND ");
        q.append("release:\"");
        q.append(album.as_str());
        q.append("\"");
    }
    q
}

/// The MusicBrainz recording search address for a candidate.
pub fn recording_search_url(candidate: &MetadataCandidate) -> (r: String)
    ensures
        r@ == "https://musicbrainz.org/ws/2/recording?query="@ + percent_encode(
            encode_utf8(
                recording_query_text(
                    candidate.title@,
                    candidate.artist@,
                    opt_text(candidate.album),
                ),
            ),
        ) + "&fmt=json&limit=10"@,
{
    let query = build_recording_query(candidate);
    let encoded = url_encode(query.as_str());
    let mut url = String::new();
    url.append("https://musicbrainz.org/ws/2/recording?query=");
    url.append(encoded.as_str());
    url.append("&fmt=json&limit=10");
    url
}

/// The address that lists the releases (and artist credits) of a recording.
pub fn release_lookup_url(recording_id: &str) -> (r: String)
    ensures
        r@ == "https://musicbrainz.org/ws/2/recording/"@ + recording_id@
            + "?inc=releases+artist-credits&fmt=json"@,
{
    let mut url = String::new();
    url.append("https://musicbrainz.org/ws/2/recording/");
    url.append(recording_id);
    url.append("?inc=releases+artist-credits&fmt=json");
    url
}

/// The address that lists the work and artist relationships of a recording.
pub fn recording_relations_url(recording_id: &str) -> (r: String)
    ensures
        r@ == "https://musicbrainz.org/ws/2/recording/"@ + recording_id@
            + "?inc=work-rels+artist-rels&fmt=json"@,
{
    let mut url = String::new();
    url.append("https://musicbrainz.org/ws/2/recording/");
    url.append(recording_id);
    url.append("?inc=work-rels+artist-rels&fmt=json");
    url
}

/// The address that lists the artist relationships of a work.
pub fn work_lookup_url(work_id: &str) -> (r: String)
    ensures
        r@ == "https://musicbrainz.org/ws/2/work/"@ + work_id@ + "?inc=artist-rels&fmt=json"@,
{
    let mut url = String::new();
    url.append("https://musicbrainz.org/ws/2/work/");
    url.append(work_id);
    url.append("?inc=artist-rels&fmt=json");
    url
}

/// The User-Agent MusicBrainz requests are sent with.
pub fn user_agent() -> (r: &'static str)
    ensures
        r@ == "TuneTagger/0.1.2 (https://github.com/sansoo1972/tunetagger)"@,
{
    "TuneTagger/0.1.2 (https://github.com/sansoo1972/tunetagger)"
}


/// An artist credit names the candidate's artist (compared normalized),
/// either as credited or by the artist's own name.
pub open spec fn credit_matches(credit: MusicBrainzArtistCredit, artist_n: Seq<char>) -> bool {
    normalized(credit.name@) == artist_n || (credit.artist matches Some(a) && normalized(a.name@)
        == artist_n)
}

/// A recording has the candidate's title and credits its artist.
pub open spec fn recording_matches(
    r: MusicBrainzRecording,
    title_n: Seq<char>,
    artist_n: Seq<char>,
) -> bool {
    &&& normalized(r.title@) == title_n
    &&& exists|k: int| 0 <= k < r.artist_credit@.len() && #[trigger] credit_matches(
        r.artist_credit@[k],
        artist_n,
    )
}

/// The search score of a recording; a missing score counts as zero.
pub open spec fn recording_score(r: MusicBrainzRecording) -> nat {
    match r.score {
        Some(s) => s as nat,
        None => 0,
    }
}

/// Position `i` holds the best match: it matches, no matching recording
/// scores higher, and every later matching recording scores lower (of
/// equally scored matches the last one is taken).
pub open spec fn is_best_recording(
    rs: Seq<MusicBrainzRecording>,
    i: int,
    title_n: Seq<char>,
    artist_n: Seq<char>,
) -> bool {
    &&& 0 <= i < rs.len()
    &&& recording_matches(rs[i], title_n, artist_n)
    &&& forall|j: int|
        0 <= j < rs.len() && recording_matches(#[trigger] rs[j], title_n, artist_n)
            ==> recording_score(rs[j]) <= recording_score(rs[i])
    &&& forall|j: int|
        i < j < rs.len() && recording_matches(#[trigger] rs[j], title_n, artist_n)
            ==> recording_score(rs[j]) < recording_score(rs[i])
}

/// A recording matches exactly when its normalized title is the
/// candidate's and one of its credits names the candidate's artist, either
/// by the credited name or by the credited artist's own name.
pub proof fn lemma_recording_match_rule(r: MusicBrainzRecording, title_n: Seq<char>, artist_n: Seq<char>)
    ensures
        recording_matches(r, title_n, artist_n) <==> (normalized(r.title@) == title_n && exists|k: int|
            0 <= k < r.artist_credit@.len() && (normalized(
                (#[trigger] r.artist_credit@[k]).name@,
            ) == artist_n || (r.artist_credit@[k].artist matches Some(a) && normalized(a.name@)
                == artist_n))),
{
    if normalized(r.title@) == title_n {
        if exists|k: int|
            0 <= k < r.artist_credit@.len() && (normalized(
                (#[trigger] r.artist_credit@[k]).name@,
            ) == artist_n || (r.artist_credit@[k].artist matches Some(a) && normalized(a.name@)
                == artist_n)) {
            let k = choose|k: int|
                0 <= k < r.artist_credit@.len() && (normalized(
                    (#[trigger] r.artist_credit@[k]).name@,
                ) == artist_n || (r.artist_credit@[k].artist matches Some(a) && normalized(
                    a.name@,
                ) == artist_n));
            assert(credit_matches(r.artist_credit@[k], artist_n));
        }
    }
}

/// Only one position can hold the best recording; and a matching
/// recording added at the end that scores at least as high as every earlier
/// match becomes the best (of equal scores the last is taken).
pub proof fn lemma_best_recording_tie_rule(
    rs: Seq<MusicBrainzRecording>,
    x: MusicBrainzRecording,
    i: int,
    j: int,
    title_n: Seq<char>,
    artist_n: Seq<char>,
)
    ensures
        is_best_recording(rs, i, title_n, artist_n) && is_best_recording(rs, j, title_n, artist_n)
            ==> i == j,
        recording_matches(x, title_n, artist_n) && (forall|k: int|
            0 <= k < rs.len() && recording_matches(#[trigger] rs[k], title_n, artist_n)
                ==> recording_score(rs[k]) <= recording_score(x)) ==> is_best_recording(
            rs.push(x),
            rs.len() as int,
            title_n,
            artist_n,
        ),
{
    if is_best_recording(rs, i, title_n, artist_n) && is_best_recording(rs, j, title_n, artist_n) {
        if i < j {
            assert(recording_matches(rs[j], title_n, artist_n));
        } else if j < i {
            assert(recording_matches(rs[i], title_n, artist_n));
        }
    }
    if recording_matches(x, title_n, artist_n) && (forall|k: int|
        0 <= k < rs.len() && recording_matches(#[trigger] rs[k], title_n, artist_n)
            ==> recording_score(rs[k]) <= recording_score(x)) {
        let t = rs.push(x);
        assert(t[rs.len() as int] == x);
        assert forall|k: int|
            0 <= k < t.len() && recording_matches(#[trigger] t[k], title_n, artist_n) implies recording_score(t[k])
                <= recording_score(t[rs.len() as int]) by {
            if k < rs.len() {
                assert(t[k] == rs[k]);
            }
        }
    }
}

fn credit_matches_exec(credit: &MusicBrainzArtistCredit, artist_n: &String) -> (r: bool)
    ensures
        r == credit_matches(*credit, artist_n@),
{
    if normalize(credit.name.as_str()) == *artist_n {
        return true;
    }
    match &credit.artist {
        Some(a) => normalize(a.name.as_str()) == *artist_n,
        None => false,
    }
}

fn recording_matches_exec(
    r: &MusicBrainzRecording,
    title_n: &String,
    artist_n: &String,
) -> (m: bool)
    ensures
        m == recording_matches(*r, title_n@, artist_n@),
{
    let tn = normalize(r.title.as_str());
    if !(tn == *title_n) {
        return false;
    }
    let mut k: usize = 0;
    while k < r.artist_credit.len()
        invariant
            normalized(r.title@) == title_n@,
            k <= r.artist_credit@.len(),
            forall|j: int| 0 <= j < k ==> !credit_matches(#[trigger] r.artist_credit@[j], artist_n@),
        decreases r.artist_credit@.len() - k,
    {
        if credit_matches_exec(&r.artist_credit[k], artist_n) {
            assert(credit_matches(r.artist_credit@[k as int], artist_n@));
            return true;
        }
        k = k + 1;
    }
    false
}

fn score_value(r: &MusicBrainzRecording) -> (s: u16)
    ensures
        s as nat == recording_score(*r),
{
    match r.score {
        Some(s) => s,
        None => 0,
    }
}

/// The position of the best matching recording for a candidate title and
/// artist, or `None` when no recording matches.
pub fn best_recording_index(
    recordings: &Vec<MusicBrainzRecording>,
    title: &str,
    artist: &str,
) -> (r: Option<usize>)
    ensures
        r is None <==> forall|j: int|
            0 <= j < recordings@.len() ==> !recording_matches(
                #[trigger] recordings@[j],
                normalized(title@),
                normalized(artist@),
            ),
        r matches Some(i) ==> is_best_recording(
            recordings@,
            i as int,
            normalized(title@),
            normalized(artist@),
        ),
        (exists|j: int, k: int|
            0 <= j < recordings@.len() && 0 <= k < recordings@[j].artist_credit@.len()
                && normalized(recordings@[j].title@) == normalized(title@) && (normalized(
                (#[trigger] recordings@[j].artist_credit@[k]).name@,
            ) == normalized(artist@) || (recordings@[j].artist_credit@[k].artist matches Some(a)
                && normalized(a.name@) == normalized(artist@)))) ==> r is Some,
{
    proof {
        assert forall|j: int| 0 <= j < recordings@.len() implies #[trigger] recording_matches(
            recordings@[j],
            normalized(title@),
            normalized(artist@),
        ) == (normalized(recordings@[j].title@) == normalized(title@) && exists|k: int|
            0 <= k < recordings@[j].artist_credit@.len() && (normalized(
                (#[trigger] recordings@[j].artist_credit@[k]).name@,
            ) == normalized(artist@) || (recordings@[j].artist_credit@[k].artist matches Some(a)
                && normalized(a.name@) == normalized(artist@)))) by {
            lemma_recording_match_rule(recordings@[j], normalized(title@), normalized(artist@));
        }
    }
    let title_n = normalize(title);
    let artist_n = normalize(artist);
    let ghost tn = title_n@;
    let ghost an = artist_n@;
    let mut best: Option<usize> = None;
    let mut best_score: u16 = 0;
    let mut i: usize = 0;
    while i < recordings.len()
        invariant
            tn == title_n@,
            an == artist_n@,
            i <= recordings@.len(),
            best is None ==> forall|j: int|
                0 <= j < i ==> !recording_matches(#[trigger] recordings@[j], tn, an),
            best matches Some(b) ==> {
                &&& b < i
                &&& recording_matches(recordings@[b as int], tn, an)
                &&& best_score as nat == recording_score(recordings@[b as int])
                &&& forall|j: int|
                    0 <= j < i && recording_matches(#[trigger] recordings@[j], tn, an)
                        ==> recording_score(recordings@[j]) <= best_score
                &&& forall|j: int|
                    b < j < i && recording_matches(#[trigger] recordings@[j], tn, an)
                        ==> recording_score(recordings@[j]) < best_score
            },
        decreases recordings@.len() - i,
    {
        if recording_matches_exec(&recordings[i], &title_n, &artist_n) {
            let s = score_value(&recordings[i]);
            match best {
                None => {
                    best = Some(i);
                    best_score = s;
                },
                Some(_) => {
                    if s >= best_score {
                        best = Some(i);
                        best_score = s;
                    }
                },
            }
        }
        i = i + 1;
    }
    best
}

/// The best matching recording for a candidate, taken out of the search
/// results.
pub fn select_best_recording(
    recordings: Vec<MusicBrainzRecording>,
    candidate: &MetadataCandidate,
) -> (r: Option<MusicBrainzRecording>)
    ensures
        r is None <==> forall|j: int|
            0 <= j < recordings@.len() ==> !recording_matches(
                #[trigger] recordings@[j],
                normalized(candidate.title@),
                normalized(candidate.artist@),
            ),
        r matches Some(x) ==> exists|i: int|
            is_best_recording(
                recordings@,
                i,
                normalized(candidate.title@),
                normalized(candidate.artist@),
            ) && recordings@[i] == x,
        (exists|j: int, k: int|
            0 <= j < recordings@.len() && 0 <= k < recordings@[j].artist_credit@.len()
                && normalized(recordings@[j].title@) == normalized(candidate.title@) && (normalized(
                (#[trigger] recordings@[j].artist_credit@[k]).name@,
            ) == normalized(candidate.artist@) || (recordings@[j].artist_credit@[k].artist matches Some(a)
                && normalized(a.name@) == normalized(candidate.artist@)))) ==> r is Some,
{
    let mut recordings = recordings;
    let ghost all = recordings@;
    match best_recording_index(&recordings, candidate.title.as_str(), candidate.artist.as_str()) {
        Some(i) => {
            let x = recordings.swap_remove(i);
            assert(all[i as int] == x);
            Some(x)
        },
        None => None,
    }
}

/// How well a release title fits the candidate's album (both normalized):
/// 0 when equal, 1 when one contains the other, 2 otherwise.
pub open spec fn release_rank(title_n: Seq<char>, album_n: Seq<char>) -> nat {
    if title_n == album_n {
        0
    } else if contains(title_n, album_n) || contains(album_n, title_n) {
        1
    } else {
        2
    }
}

/// Position `i` holds the release to use: without a known album the first
/// release; otherwise the first release of the best rank.
pub open spec fn is_best_release(
    rs: Seq<MusicBrainzRelease>,
    i: int,
    album: Option<Seq<char>>,
) -> bool {
    &&& 0 <= i < rs.len()
    &&& match album {
        None => i == 0,
        Some(a) => {
            &&& forall|j: int|
                0 <= j < rs.len() ==> release_rank(normalized(rs[i].title@), normalized(a))
                    <= release_rank(normalized(#[trigger] rs[j].title@), normalized(a))
            &&& forall|j: int|
                0 <= j < i ==> release_rank(normalized(rs[i].title@), normalized(a))
                    < release_rank(normalized(#[trigger] rs[j].title@), normalized(a))
        },
    }
}

/// A release title fits the album best when equal to it, next when one
/// contains the other (either way), and worst otherwise.
pub proof fn lemma_release_rank_rule(title_n: Seq<char>, album_n: Seq<char>)
    ensures
        title_n == album_n ==> release_rank(title_n, album_n) == 0,
        title_n != album_n && contains(title_n, album_n) ==> release_rank(title_n, album_n) == 1,
        title_n != album_n && contains(album_n, title_n) ==> release_rank(title_n, album_n) == 1,
        !contains(title_n, album_n) && !contains(album_n, title_n) ==> release_rank(
            title_n,
            album_n,
        ) == 2,
{
    if title_n == album_n {
        assert(title_n.subrange(0, title_n.len() as int) =~= album_n);
        assert(occurs_at(title_n, album_n, 0));
    }
}

/// The release chosen for an album has the album's title when any release
/// has it, and otherwise contains or is contained in the album title when
/// any release does.
pub proof fn lemma_best_release_fits(rs: Seq<MusicBrainzRelease>, i: int, album: Seq<char>)
    requires
        is_best_release(rs, i, Some(album)),
    ensures
        (exists|j: int| 0 <= j < rs.len() && #[trigger] normalized(rs[j].title@) == normalized(album))
            ==> normalized(rs[i].title@) == normalized(album),
        (exists|j: int|
            0 <= j < rs.len() && (contains(#[trigger] normalized(rs[j].title@), normalized(album))
                || contains(normalized(album), normalized(rs[j].title@)))) ==> (contains(
            normalized(rs[i].title@),
            normalized(album),
        ) || contains(normalized(album), normalized(rs[i].title@))),
{
    let a = normalized(album);
    let ti = normalized(rs[i].title@);
    lemma_release_rank_rule(ti, a);
    if exists|j: int| 0 <= j < rs.len() && #[trigger] normalized(rs[j].title@) == a {
        let j = choose|j: int| 0 <= j < rs.len() && #[trigger] normalized(rs[j].title@) == a;
        lemma_release_rank_rule(normalized(rs[j].title@), a);
        assert(release_rank(ti, a) <= release_rank(normalized(rs[j].title@), a));
    }
    if exists|j: int|
        0 <= j < rs.len() && (contains(#[trigger] normalized(rs[j].title@), a) || contains(
            a,
            normalized(rs[j].title@),
        )) {
        let j = choose|j: int|
            0 <= j < rs.len() && (contains(#[trigger] normalized(rs[j].title@), a) || contains(
                a,
                normalized(rs[j].title@),
            ));
        lemma_release_rank_rule(normalized(rs[j].title@), a);
        assert(release_rank(ti, a) <= release_rank(normalized(rs[j].title@), a));
        if ti == a {
            assert(ti.subrange(0, ti.len() as int) =~= a);
            assert(occurs_at(ti, a, 0));
        }
    }
}

fn release_rank_exec(title_n: &String, album_n: &String) -> (r: u8)
    ensures
        r as nat == release_rank(title_n@, album_n@),
{
    if *title_n == *album_n {
        return 0;
    }
    let t = chars_of(title_n.as_str());
    let a = chars_of(album_n.as_str());
    if contains_chars(&t, &a) || contains_chars(&a, &t) {
        1
    } else {
        2
    }
}

/// The position of the release to use for a candidate's album, or `None`
/// when there are no releases.
pub fn best_release_index(releases: &Vec<MusicBrainzRelease>, album: &Option<String>) -> (r:
    Option<usize>)
    ensures
        r is None <==> releases@.len() == 0,
        r matches Some(i) ==> is_best_release(releases@, i as int, opt_text(*album)),
        r matches Some(i) ==> (album is None ==> i == 0),
        r matches Some(i) ==> (album matches Some(al) ==> ((exists|j: int|
            0 <= j < releases@.len() && #[trigger] normalized(releases@[j].title@) == normalized(
                al@,
            )) ==> normalized(releases@[i as int].title@) == normalized(al@))),
        r matches Some(i) ==> (album matches Some(al) ==> ((exists|j: int|
            0 <= j < releases@.len() && (contains(
                #[trigger] normalized(releases@[j].title@),
                normalized(al@),
            ) || contains(normalized(al@), normalized(releases@[j].title@)))) ==> (contains(
            normalized(releases@[i as int].title@),
            normalized(al@),
        ) || contains(normalized(al@), normalized(releases@[i as int].title@))))),
{
    if releases.len() == 0 {
        return None;
    }
    let album_s = match album {
        None => {
            return Some(0);
        },
        Some(a) => a,
    };
    let album_n = normalize(album_s.as_str());
    let ghost an = album_n@;
    let mut best: usize = 0;
    let t0 = normalize(releases[0].title.as_str());
    let mut best_rank = release_rank_exec(&t0, &album_n);
    let mut i: usize = 1;
    while i < releases.len()
        invariant
            an == album_n@,
            an == normalized(album_s@),
            1 <= i <= releases@.len(),
            best < i,
            best_rank as nat == release_rank(normalized(releases@[best as int].title@), an),
            forall|j: int|
                0 <= j < i ==> best_rank <= release_rank(
                    normalized(#[trigger] releases@[j].title@),
                    an,
                ),
            forall|j: int|
                0 <= j < best ==> best_rank < release_rank(
                    normalized(#[trigger] releases@[j].title@),
                    an,
                ),
        decreases releases@.len() - i,
    {
        let tn = normalize(releases[i].title.as_str());
        let rank = release_rank_exec(&tn, &album_n);
        if rank < best_rank {
            best = i;
            best_rank = rank;
        }
        i = i + 1;
    }
    proof {
        lemma_best_release_fits(releases@, best as int, album_s@);
    }
    Some(best)
}

/// The release to use for a candidate, taken out of the lookup results.
pub fn select_best_release(releases: Vec<MusicBrainzRelease>, album: &Option<String>) -> (r:
    Option<MusicBrainzRelease>)
    ensures
        r is None <==> releases@.len() == 0,
        r matches Some(x) ==> exists|i: int|
            is_best_release(releases@, i, opt_text(*album)) && releases@[i] == x,
        r matches Some(x) ==> (album is None ==> x == releases@[0]),
        r matches Some(x) ==> (album matches Some(al) ==> ((exists|j: int|
            0 <= j < releases@.len() && #[trigger] normalized(releases@[j].title@) == normalized(
                al@,
            )) ==> normalized(x.title@) == normalized(al@))),
        r matches Some(x) ==> (album matches Some(al) ==> ((exists|j: int|
            0 <= j < releases@.len() && (contains(
                #[trigger] normalized(releases@[j].title@),
                normalized(al@),
            ) || contains(normalized(al@), normalized(releases@[j].title@)))) ==> (contains(
            normalized(x.title@),
            normalized(al@),
        ) || contains(normalized(al@), normalized(x.title@))))),
{
    let mut releases = releases;
    let ghost all = releases@;
    match best_release_index(&releases, album) {
        Some(i) => {
            let x = releases.swap_remove(i);
            assert(all[i as int] == x);
            Some(x)
        },
        None => None,
    }
}

/// The name an artist credit contributes to a release's album artist: the
/// credited name, trimmed, or else the artist's own name, trimmed; nothing
/// when both are blank.
pub open spec fn credit_display_name(credit: MusicBrainzArtistCredit) -> Option<Seq<char>> {
    if trim(credit.name@).len() > 0 {
        Some(trim(credit.name@))
    } else {
        match credit.artist {
            Some(a) => if trim(a.name@).len() > 0 {
                Some(trim(a.name@))
            } else {
                None
            },
            None => None,
        }
    }
}

/// The names the credits contribute, in order.
pub open spec fn credit_names(credits: Seq<MusicBrainzArtistCredit>) -> Seq<Seq<char>>
    decreases credits.len(),
{
    if credits.len() == 0 {
        Seq::<Seq<char>>::empty()
    } else {
        let prev = credit_names(credits.drop_last());
        match credit_display_name(credits.last()) {
            Some(n) => prev.push(n),
            None => prev,
        }
    }
}

/// A release's album artist: its credited names joined by " & ", or
/// nothing when it credits no name.
pub open spec fn artist_credit_text(credits: Seq<MusicBrainzArtistCredit>) -> Option<Seq<char>> {
    let names = credit_names(credits);
    if names.len() == 0 {
        None
    } else {
        Some(join(names, " & "@))
    }
}

fn trimmed_string(s: &String) -> (r: String)
    ensures
        r@ == trim(s@),
{
    let c = chars_of(s.as_str());
    let t = trim_chars(&c);
    string_of(&t)
}

impl MusicBrainzRelease {
    /// The album artist a release credits.
    pub fn artist_credit_name(&self) -> (r: Option<String>)
        ensures
            opt_text(r) == artist_credit_text(self.artist_credit@),
    {
        let mut names: Vec<String> = Vec::new();
        let mut k: usize = 0;
        while k < self.artist_credit.len()
            invariant
                k <= self.artist_credit@.len(),
                views(names@) == credit_names(self.artist_credit@.take(k as int)),
            decreases self.artist_credit@.len() - k,
        {
            let credit = &self.artist_credit[k];
            assert(self.artist_credit@.take((k + 1) as int).drop_last() =~= self.artist_credit@.take(
                k as int,
            ));
            let name = trimmed_string(&credit.name);
            if name.unicode_len() > 0 {
                names.push(name);
            } else {
                match &credit.artist {
                    Some(a) => {
                        let an = trimmed_string(&a.name);
                        if an.unicode_len() > 0 {
                            names.push(an);
                        }
                    },
                    None => {},
                }
            }
            assert(views(names@) =~= credit_names(self.artist_credit@.take((k + 1) as int)));
            k = k + 1;
        }
        assert(self.artist_credit@.take(self.artist_credit@.len() as int) =~= self.artist_credit@);
        if names.len() == 0 {
            None
        } else {
            Some(join_strings(&names, " & "))
        }
    }
}


/// Appends `value`, trimmed, unless it is blank.
pub fn push_non_empty(values: &mut Vec<String>, value: String)
    ensures
        trim(value@).len() > 0 ==> views(final(values)@) == views(old(values)@).push(trim(value@)),
        trim(value@).len() == 0 ==> final(values)@ == old(values)@,
{
    let t = trimmed_string(&value);
    if t.unicode_len() > 0 {
        let ghost before = values@;
        values.push(t);
        assert(views(values@) =~= views(before).push(trim(value@)));
    }
}

/// The names in `names`, trimmed, without the blank ones.
pub open spec fn cleaned_names(names: Seq<Seq<char>>) -> Seq<Seq<char>>
    decreases names.len(),
{
    if names.len() == 0 {
        Seq::<Seq<char>>::empty()
    } else {
        let prev = cleaned_names(names.drop_last());
        let t = trim(names.last());
        if t.len() > 0 {
            prev.push(t)
        } else {
            prev
        }
    }
}

/// A composer credit: the distinct non-blank names, trimmed, in ascending
/// order and joined by "; "; nothing when there is no such name.
pub open spec fn name_list_text(names: Seq<Seq<char>>) -> Option<Seq<char>> {
    let s = sorted_distinct(cleaned_names(names));
    if s.len() == 0 {
        None
    } else {
        Some(join(s, "; "@))
    }
}

proof fn lemma_cleaned_names_members(names: Seq<Seq<char>>)
    ensures
        forall|x: Seq<char>|
            #[trigger] cleaned_names(names).contains(x) <==> exists|i: int|
                0 <= i < names.len() && trim(#[trigger] names[i]).len() > 0 && x == trim(names[i]),
    decreases names.len(),
{
    if names.len() > 0 {
        let init = names.drop_last();
        lemma_cleaned_names_members(init);
        let prev = cleaned_names(init);
        let all = cleaned_names(names);
        let last = names.len() - 1;
        assert forall|x: Seq<char>| all.contains(x) implies exists|i: int|
            0 <= i < names.len() && trim(#[trigger] names[i]).len() > 0 && x == trim(names[i]) by {
            let k = choose|k: int| 0 <= k < all.len() && all[k] == x;
            if k < prev.len() {
                assert(prev[k] == x);
                assert(prev.contains(x));
                let i = choose|i: int|
                    0 <= i < init.len() && trim(#[trigger] init[i]).len() > 0 && x == trim(init[i]);
                assert(names[i] == init[i]);
            } else {
                assert(names[last] == names.last());
            }
        }
        assert forall|x: Seq<char>| (exists|i: int|
            0 <= i < names.len() && trim(#[trigger] names[i]).len() > 0 && x == trim(names[i]))
            implies all.contains(x) by {
            let i = choose|i: int|
                0 <= i < names.len() && trim(#[trigger] names[i]).len() > 0 && x == trim(names[i]);
            if i < last {
                assert(init[i] == names[i]);
                assert(prev.contains(x));
                let k = choose|k: int| 0 <= k < prev.len() && prev[k] == x;
                assert(all[k] == prev[k]);
            } else {
                assert(all[all.len() - 1] == x);
            }
        }
    }
}

/// A composer credit lists exactly the trimmed, non-blank names given, each
/// once, in ascending order; there is none exactly when every name is
/// blank.
pub proof fn lemma_name_list_members(names: Seq<Seq<char>>)
    ensures
        name_list_text(names) is None <==> forall|i: int|
            0 <= i < names.len() ==> trim(#[trigger] names[i]).len() == 0,
        strictly_sorted(sorted_distinct(cleaned_names(names))),
        forall|x: Seq<char>|
            #[trigger] sorted_distinct(cleaned_names(names)).contains(x) <==> exists|i: int|
                0 <= i < names.len() && trim(#[trigger] names[i]).len() > 0 && x == trim(names[i]),
        name_list_text(names) matches Some(t) ==> t == join(sorted_distinct(cleaned_names(names)), "; "@),
{
    lemma_cleaned_names_members(names);
    crate::order::lemma_sorted_distinct_exists(cleaned_names(names));
    let sd = sorted_distinct(cleaned_names(names));
    if sd.len() == 0 {
        assert forall|i: int| 0 <= i < names.len() implies trim(#[trigger] names[i]).len() == 0 by {
            if trim(names[i]).len() > 0 {
                assert(cleaned_names(names).contains(trim(names[i])));
                assert(sd.contains(trim(names[i])));
            }
        }
    } else {
        assert(sd.contains(sd[0]));
    }
}

/// Turns a list of names into one credit.
pub fn normalize_name_list(names: Vec<String>) -> (r: Option<String>)
    ensures
        opt_text(r) == name_list_text(views(names@)),
{
    let mut cleaned: Vec<String> = Vec::new();
    let mut i: usize = 0;
    while i < names.len()
        invariant
            i <= names@.len(),
            views(cleaned@) == cleaned_names(views(names@.take(i as int))),
        decreases names@.len() - i,
    {
        assert(views(names@.take((i + 1) as int)).drop_last() =~= views(names@.take(i as int)));
        let t = trimmed_string(&names[i]);
        if t.unicode_len() > 0 {
            let ghost before = cleaned@;
            cleaned.push(t);
            assert(views(cleaned@) =~= views(before).push(t@));
        }
        i = i + 1;
    }
    assert(names@.take(names@.len() as int) =~= names@);
    let sorted = sort_dedup(&cleaned);
    if sorted.len() == 0 {
        None
    } else {
        Some(join_strings(&sorted, "; "))
    }
}

/// A composer credit does not depend on the order of the names, nor on
/// repeated, blank or untrimmed entries.
pub proof fn lemma_name_list_order_free(a: Seq<Seq<char>>, b: Seq<Seq<char>>)
    requires
        forall|x: Seq<char>| cleaned_names(a).contains(x) <==> cleaned_names(b).contains(x),
    ensures
        name_list_text(a) == name_list_text(b),
{
    crate::order::lemma_sorted_distinct_order_free(cleaned_names(a), cleaned_names(b));
}

/// The composers a recording credits directly: the non-blank artist names,
/// trimmed, of its "composer" relationships, in order.
pub open spec fn direct_composer_names(rels: Seq<MusicBrainzRelation>) -> Seq<Seq<char>>
    decreases rels.len(),
{
    if rels.len() == 0 {
        Seq::<Seq<char>>::empty()
    } else {
        let prev = direct_composer_names(rels.drop_last());
        let rel = rels.last();
        if rel.relation_type@ == "composer"@ && rel.artist is Some && trim(
            rel.artist->0.name@,
        ).len() > 0 {
            prev.push(trim(rel.artist->0.name@))
        } else {
            prev
        }
    }
}

/// The works a recording performs or records (its "performance" and
/// "recording of" relationships), whose composers are looked up next.
pub open spec fn related_work_ids(rels: Seq<MusicBrainzRelation>) -> Seq<Seq<char>>
    decreases rels.len(),
{
    if rels.len() == 0 {
        Seq::<Seq<char>>::empty()
    } else {
        let prev = related_work_ids(rels.drop_last());
        let rel = rels.last();
        if (rel.relation_type@ == "performance"@ || rel.relation_type@ == "recording of"@)
            && rel.work is Some {
            prev.push(rel.work->0.id@)
        } else {
            prev
        }
    }
}

/// A recording's direct composer credits are exactly the trimmed,
/// non-blank artist names of its "composer" relationships.
pub proof fn lemma_direct_composer_credits(rels: Seq<MusicBrainzRelation>)
    ensures
        forall|x: Seq<char>|
            #[trigger] direct_composer_names(rels).contains(x) <==> exists|i: int|
                0 <= i < rels.len() && rels[i].relation_type@ == "composer"@ && rels[i].artist is Some && trim(rels[i].artist->0.name@).len() > 0 && x == trim(rels[i].artist->0.name@),
    decreases rels.len(),
{
    if rels.len() > 0 {
        let init = rels.drop_last();
        lemma_direct_composer_credits(init);
        let prev = direct_composer_names(init);
        let all = direct_composer_names(rels);
        let last = rels.len() - 1;
        assert forall|x: Seq<char>| all.contains(x) implies exists|i: int|
            0 <= i < rels.len() && rels[i].relation_type@ == "composer"@ && rels[i].artist is Some && trim(rels[i].artist->0.name@).len() > 0 && x == trim(rels[i].artist->0.name@) by {
            let k = choose|k: int| 0 <= k < all.len() && all[k] == x;
            if k < prev.len() {
                assert(prev[k] == x);
                assert(prev.contains(x));
                let i = choose|i: int|
                    0 <= i < init.len() && init[i].relation_type@ == "composer"@ && init[i].artist is Some && trim(init[i].artist->0.name@).len() > 0 && x == trim(init[i].artist->0.name@);
                assert(rels[i] == init[i]);
            } else {
                assert(rels[last] == rels.last());
            }
        }
        assert forall|x: Seq<char>| (exists|i: int|
            0 <= i < rels.len() && rels[i].relation_type@ == "composer"@ && rels[i].artist is Some && trim(rels[i].artist->0.name@).len() > 0 && x == trim(rels[i].artist->0.name@)) implies all.contains(x) by {
            let i = choose|i: int|
                0 <= i < rels.len() && rels[i].relation_type@ == "composer"@ && rels[i].artist is Some && trim(rels[i].artist->0.name@).len() > 0 && x == trim(rels[i].artist->0.name@);
            if i < last {
                assert(init[i] == rels[i]);
                assert(prev.contains(x));
                let k = choose|k: int| 0 <= k < prev.len() && prev[k] == x;
                assert(all[k] == prev[k]);
            } else {
                assert(all[all.len() - 1] == x);
            }
        }
    }
}

/// The works whose composers count are exactly those of the recording's
/// "performance" and "recording of" relationships.
pub proof fn lemma_related_works(rels: Seq<MusicBrainzRelation>)
    ensures
        forall|x: Seq<char>|
            #[trigger] related_work_ids(rels).contains(x) <==> exists|i: int|
                0 <= i < rels.len() && (rels[i].relation_type@ == "performance"@ || rels[i].relation_type@ == "recording of"@) && rels[i].work is Some && x == rels[i].work->0.id@,
    decreases rels.len(),
{
    if rels.len() > 0 {
        let init = rels.drop_last();
        lemma_related_works(init);
        let prev = related_work_ids(init);
        let all = related_work_ids(rels);
        let last = rels.len() - 1;
        assert forall|x: Seq<char>| all.contains(x) implies exists|i: int|
            0 <= i < rels.len() && (rels[i].relation_type@ == "performance"@ || rels[i].relation_type@ == "recording of"@) && rels[i].work is Some && x == rels[i].work->0.id@ by {
            let k = choose|k: int| 0 <= k < all.len() && all[k] == x;
            if k < prev.len() {
                assert(prev[k] == x);
                assert(prev.contains(x));
                let i = choose|i: int|
                    0 <= i < init.len() && (init[i].relation_type@ == "performance"@ || init[i].relation_type@ == "recording of"@) && init[i].work is Some && x == init[i].work->0.id@;
                assert(rels[i] == init[i]);
            } else {
                assert(rels[last] == rels.last());
            }
        }
        assert forall|x: Seq<char>| (exists|i: int|
            0 <= i < rels.len() && (rels[i].relation_type@ == "performance"@ || rels[i].relation_type@ == "recording of"@) && rels[i].work is Some && x == rels[i].work->0.id@) implies all.contains(x) by {
            let i = choose|i: int|
                0 <= i < rels.len() && (rels[i].relation_type@ == "performance"@ || rels[i].relation_type@ == "recording of"@) && rels[i].work is Some && x == rels[i].work->0.id@;
            if i < last {
                assert(init[i] == rels[i]);
                assert(prev.contains(x));
                let k = choose|k: int| 0 <= k < prev.len() && prev[k] == x;
                assert(all[k] == prev[k]);
            } else {
                assert(all[all.len() - 1] == x);
            }
        }
    }
}

/// The composer names credited directly by a recording, and the works whose
/// composers count too.
pub fn recording_composer_sources(relations: &Vec<MusicBrainzRelation>) -> (r: (
    Vec<String>,
    Vec<String>,
))
    ensures
        views(r.0@) == direct_composer_names(relations@),
        views(r.1@) == related_work_ids(relations@),
        forall|x: Seq<char>|
            #[trigger] views(r.0@).contains(x) <==> exists|i: int|
                0 <= i < relations@.len() && relations@[i].relation_type@ == "composer"@
                    && relations@[i].artist is Some && trim(relations@[i].artist->0.name@).len()
                    > 0 && x == trim(relations@[i].artist->0.name@),
        forall|x: Seq<char>|
            #[trigger] views(r.1@).contains(x) <==> exists|i: int|
                0 <= i < relations@.len() && (relations@[i].relation_type@ == "performance"@
                    || relations@[i].relation_type@ == "recording of"@) && relations@[i].work is Some
                    && x == relations@[i].work->0.id@,
{
    proof {
        lemma_direct_composer_credits(relations@);
        lemma_related_works(relations@);
    }
    let mut direct: Vec<String> = Vec::new();
    let mut works: Vec<String> = Vec::new();
    let mut i: usize = 0;
    while i < relations.len()
        invariant
            i <= relations@.len(),
            views(direct@) == direct_composer_names(relations@.take(i as int)),
            views(works@) == related_work_ids(relations@.take(i as int)),
        decreases relations@.len() - i,
    {
        let rel = &relations[i];
        assert(relations@.take((i + 1) as int).drop_last() =~= relations@.take(i as int));
        let kind = chars_of(rel.relation_type.as_str());
        if chars_eq_str(&kind, "composer") {
            if let Some(artist) = &rel.artist {
                push_non_empty(&mut direct, artist.name.clone());
            }
        }
        if chars_eq_str(&kind, "performance") || chars_eq_str(&kind, "recording of") {
            if let Some(work) = &rel.work {
                let ghost before = works@;
                works.push(work.id.clone());
                assert(views(works@) =~= views(before).push(work.id@));
            }
        }
        proof {
            reveal_strlit("composer");
            reveal_strlit("performance");
            reveal_strlit("recording of");
        }
        i = i + 1;
    }
    assert(relations@.take(relations@.len() as int) =~= relations@);
    (direct, works)
}

/// The composers a work credits: the non-blank artist names, trimmed, of
/// its "composer", "writer" and "lyricist" relationships, in order.
pub open spec fn work_composer_names(rels: Seq<MusicBrainzRelation>) -> Seq<Seq<char>>
    decreases rels.len(),
{
    if rels.len() == 0 {
        Seq::<Seq<char>>::empty()
    } else {
        let prev = work_composer_names(rels.drop_last());
        let rel = rels.last();
        if (rel.relation_type@ == "composer"@ || rel.relation_type@ == "writer"@
            || rel.relation_type@ == "lyricist"@) && rel.artist is Some && trim(
            rel.artist->0.name@,
        ).len() > 0 {
            prev.push(trim(rel.artist->0.name@))
        } else {
            prev
        }
    }
}

/// A work's composer credits are exactly the trimmed, non-blank artist
/// names of its "composer", "writer" and "lyricist" relationships.
pub proof fn lemma_work_composer_credits(rels: Seq<MusicBrainzRelation>)
    ensures
        forall|x: Seq<char>|
            #[trigger] work_composer_names(rels).contains(x) <==> exists|i: int|
                0 <= i < rels.len() && (rels[i].relation_type@ == "composer"@ || rels[i].relation_type@ == "writer"@ || rels[i].relation_type@ == "lyricist"@) && rels[i].artist is Some && trim(rels[i].artist->0.name@).len() > 0 && x == trim(rels[i].artist->0.name@),
    decreases rels.len(),
{
    if rels.len() > 0 {
        let init = rels.drop_last();
        lemma_work_composer_credits(init);
        let prev = work_composer_names(init);
        let all = work_composer_names(rels);
        let last = rels.len() - 1;
        assert forall|x: Seq<char>| all.contains(x) implies exists|i: int|
            0 <= i < rels.len() && (rels[i].relation_type@ == "composer"@ || rels[i].relation_type@ == "writer"@ || rels[i].relation_type@ == "lyricist"@) && rels[i].artist is Some && trim(rels[i].artist->0.name@).len() > 0 && x == trim(rels[i].artist->0.name@) by {
            let k = choose|k: int| 0 <= k < all.len() && all[k] == x;
            if k < prev.len() {
                assert(prev[k] == x);
                assert(prev.contains(x));
                let i = choose|i: int|
                    0 <= i < init.len() && (init[i].relation_type@ == "composer"@ || init[i].relation_type@ == "writer"@ || init[i].relation_type@ == "lyricist"@) && init[i].artist is Some && trim(init[i].artist->0.name@).len() > 0 && x == trim(init[i].artist->0.name@);
                assert(rels[i] == init[i]);
            } else {
                assert(rels[last] == rels.last());
            }
        }
        assert forall|x: Seq<char>| (exists|i: int|
            0 <= i < rels.len() && (rels[i].relation_type@ == "composer"@ || rels[i].relation_type@ == "writer"@ || rels[i].relation_type@ == "lyricist"@) && rels[i].artist is Some && trim(rels[i].artist->0.name@).len() > 0 && x == trim(rels[i].artist->0.name@)) implies all.contains(x) by {
            let i = choose|i: int|
                0 <= i < rels.len() && (rels[i].relation_type@ == "composer"@ || rels[i].relation_type@ == "writer"@ || rels[i].relation_type@ == "lyricist"@) && rels[i].artist is Some && trim(rels[i].artist->0.name@).len() > 0 && x == trim(rels[i].artist->0.name@);
            if i < last {
                assert(init[i] == rels[i]);
                assert(prev.contains(x));
                let k = choose|k: int| 0 <= k < prev.len() && prev[k] == x;
                assert(all[k] == prev[k]);
            } else {
                assert(all[all.len() - 1] == x);
            }
        }
    }
}

/// The composers of a work, distinct and in ascending order.
pub fn work_composers(relations: &Vec<MusicBrainzRelation>) -> (r: Vec<String>)
    ensures
        views(r@) == sorted_distinct(work_composer_names(relations@)),
        strictly_sorted(views(r@)),
        forall|x: Seq<char>| views(r@).contains(x) <==> work_composer_names(relations@).contains(x),
        forall|x: Seq<char>|
            #[trigger] views(r@).contains(x) <==> exists|i: int|
                0 <= i < relations@.len() && (relations@[i].relation_type@ == "composer"@
                    || relations@[i].relation_type@ == "writer"@ || relations@[i].relation_type@
                    == "lyricist"@) && relations@[i].artist is Some && trim(
                    relations@[i].artist->0.name@,
                ).len() > 0 && x == trim(relations@[i].artist->0.name@),
{
    proof {
        lemma_work_composer_credits(relations@);
    }
    let mut names: Vec<String> = Vec::new();
    let mut i: usize = 0;
    while i < relations.len()
        invariant
            i <= relations@.len(),
            views(names@) == work_composer_names(relations@.take(i as int)),
        decreases relations@.len() - i,
    {
        let rel = &relations[i];
        assert(relations@.take((i + 1) as int).drop_last() =~= relations@.take(i as int));
        let kind = chars_of(rel.relation_type.as_str());
        if chars_eq_str(&kind, "composer") || chars_eq_str(&kind, "writer") || chars_eq_str(
            &kind,
            "lyricist",
        ) {
            if let Some(artist) = &rel.artist {
                push_non_empty(&mut names, artist.name.clone());
            }
        }
        i = i + 1;
    }
    assert(relations@.take(relations@.len() as int) =~= relations@);
    sort_dedup(&names)
}

/// The texts of a list of lists, one after another.
pub open spec fn flatten_views(lists: Seq<Vec<String>>) -> Seq<Seq<char>>
    decreases lists.len(),
{
    if lists.len() == 0 {
        Seq::<Seq<char>>::empty()
    } else {
        flatten_views(lists.drop_last()) + views(lists.last()@)
    }
}

/// A recording's composer credit: its direct composers together with the
/// composers of its works, made into one credit.
pub fn recording_composer(direct: Vec<String>, work_names: Vec<Vec<String>>) -> (r: Option<
    String,
>)
    ensures
        opt_text(r) == name_list_text(views(direct@) + flatten_views(work_names@)),
{
    let mut all = direct;
    let ghost d = views(all@);
    let mut i: usize = 0;
    while i < work_names.len()
        invariant
            i <= work_names@.len(),
            views(all@) == d + flatten_views(work_names@.take(i as int)),
        decreases work_names@.len() - i,
    {
        assert(work_names@.take((i + 1) as int).drop_last() =~= work_names@.take(i as int));
        let list = &work_names[i];
        let mut k: usize = 0;
        let ghost before = views(all@);
        while k < list.len()
            invariant
                k <= list@.len(),
                views(all@) == before + views(list@.take(k as int)),
            decreases list@.len() - k,
        {
            let c = list[k].clone();
            assert(c@ == list@[k as int]@);
            let ghost pre = all@;
            all.push(c);
            assert(views(all@) =~= views(pre).push(c@));
            assert(views(list@.take((k + 1) as int)) =~= views(list@.take(k as int)).push(
                list@[k as int]@,
            ));
            assert(views(all@) =~= before + views(list@.take((k + 1) as int)));
            k = k + 1;
        }
        assert(list@.take(list@.len() as int) =~= list@);
        assert(views(all@) =~= d + flatten_views(work_names@.take((i + 1) as int)));
        i = i + 1;
    }
    assert(work_names@.take(work_names@.len() as int) =~= work_names@);
    normalize_name_list(all)
}

/// The enrichment found for a recording: the album artist and title of
/// the chosen release, its id, the recording's id, and the composer credit.
pub fn assemble_enrichment(
    recording_id: String,
    release: Option<MusicBrainzRelease>,
    composer: Option<String>,
) -> (r: MusicBrainzEnrichment)
    ensures
        r.recording_id == Some(recording_id),
        r.composer == composer,
        match release {
            Some(rel) => {
                &&& opt_text(r.album_artist) == artist_credit_text(rel.artist_credit@)
                &&& r.release_title == Some(rel.title)
                &&& r.release_id == Some(rel.id)
            },
            None => r.album_artist is None && r.release_title is None && r.release_id is None,
        },
{
    match release {
        Some(rel) => {
            let album_artist = rel.artist_credit_name();
            MusicBrainzEnrichment {
                album_artist,
                composer,
                release_title: Some(rel.title.clone()),
                release_id: Some(rel.id.clone()),
                recording_id: Some(recording_id),
            }
        },
        None => MusicBrainzEnrichment {
            album_artist: None,
            composer,
            release_title: None,
            release_id: None,
            recording_id: Some(recording_id),
        },
    }
}

} // verus!
