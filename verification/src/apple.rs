//! Apple/iTunes Search API: the query address and turning a search result
//! into a metadata candidate.

use vstd::prelude::*;
use crate::model::{MetadataCandidate, MetadataSource, TrackIdentity};
use crate::text::{chars_eq_str, chars_of, opt_text, replace_all, replace_chars, string_of};
use crate::urls::{percent_encode, url_encode};
use vstd::utf8::encode_utf8;

verus! {

/// One song in an Apple/iTunes search response.
#[derive(Clone, Debug)]
pub struct AppleTrack {
    pub track_name: Option<String>,
    pub artist_name: Option<String>,
    pub collection_name: Option<String>,
    pub collection_artist_name: Option<String>,
    pub track_number: Option<u16>,
    pub track_count: Option<u16>,
    pub disc_number: Option<u16>,
    pub disc_count: Option<u16>,
    pub release_date: Option<String>,
    pub primary_genre_name: Option<String>,
    pub track_explicitness: Option<String>,
    pub artwork_url100: Option<String>,
    pub track_time_millis: Option<u64>,
}

/// The search address for an identity: artist and title, separated by a
/// space and percent-encoded, asking for at most ten songs.
pub open spec fn apple_search_url_text(identity: TrackIdentity) -> Seq<char> {
    "https://itunes.apple.com/search?media=music&entity=song&limit=10&term="@ + percent_encode(
        encode_utf8(identity.artist@ + " "@ + identity.title@),
    )
}

/// Builds the search address for an identity.
pub fn apple_search_url(identity: &TrackIdentity) -> (r: String)
    ensures
        r@ == apple_search_url_text(*identity),
{
    let mut term = String::new();
    term.append(identity.artist.as_str());
    term.append(" ");
    term.append(identity.title.as_str());
    let encoded = url_encode(term.as_str());
    let mut url = String::new();
    url.append("https://itunes.apple.com/search?media=music&entity=song&limit=10&term=");
    url.append(encoded.as_str());
    url
}

/// The large artwork address for a 100×100 artwork address.
pub open spec fn large_artwork_url(url: Seq<char>) -> Seq<char> {
    replace_all(url, "100x100bb"@, "1200x1200bb"@)
}

/// `r` is the candidate the search result `value` stands for: missing
/// title and artist become empty, the artwork address asks for the
/// 1200×1200 image, a song is explicit when Apple says "explicit", no
/// composer, and confidence zero.
pub open spec fn converted_from(r: MetadataCandidate, value: AppleTrack) -> bool {
    &&& r.source == MetadataSource::Apple
    &&& r.title@ == match value.track_name {
        Some(t) => t@,
        None => Seq::<char>::empty(),
    }
    &&& r.artist@ == match value.artist_name {
        Some(a) => a@,
        None => Seq::<char>::empty(),
    }
    &&& r.album == value.collection_name
    &&& r.album_artist == value.collection_artist_name
    &&& r.track_number == value.track_number
    &&& r.track_total == value.track_count
    &&& r.disc_number == value.disc_number
    &&& r.disc_total == value.disc_count
    &&& r.release_date == value.release_date
    &&& r.genre == value.primary_genre_name
    &&& r.composer is None
    &&& r.explicit == match value.track_explicitness {
        Some(e) => Some(e@ == "explicit"@),
        None => None,
    }
    &&& opt_text(r.artwork_url) == match value.artwork_url100 {
        Some(u) => Some(large_artwork_url(u@)),
        None => None,
    }
    &&& r.duration_ms == value.track_time_millis
    &&& r.confidence == 0
}

/// The candidate a search result stands for.
pub fn candidate_from_apple_track(value: AppleTrack) -> (r: MetadataCandidate)
    ensures
        converted_from(r, value),
{
    let artwork_url = match &value.artwork_url100 {
        Some(u) => {
            let c = chars_of(u.as_str());
            let pat = chars_of("100x100bb");
            let rep = chars_of("1200x1200bb");
            proof {
                reveal_strlit("100x100bb");
            }
            let replaced = replace_chars(&c, &pat, &rep);
            Some(string_of(&replaced))
        },
        None => None,
    };
    let explicit = match &value.track_explicitness {
        Some(e) => {
            let c = chars_of(e.as_str());
            Some(chars_eq_str(&c, "explicit"))
        },
        None => None,
    };
    let title = match value.track_name {
        Some(t) => t,
        None => String::new(),
    };
    let artist = match value.artist_name {
        Some(a) => a,
        None => String::new(),
    };
    MetadataCandidate {
        source: MetadataSource::Apple,
        title,
        artist,
        album: value.collection_name,
        album_artist: value.collection_artist_name,
        track_number: value.track_number,
        track_total: value.track_count,
        disc_number: value.disc_number,
        disc_total: value.disc_count,
        release_date: value.release_date,
        genre: value.primary_genre_name,
        composer: None,
        explicit,
        artwork_url,
        duration_ms: value.track_time_millis,
        confidence: 0,
    }
}


/// The candidates of a whole search response, in order.
pub fn candidates_from_apple_tracks(tracks: Vec<AppleTrack>) -> (r: Vec<MetadataCandidate>)
    ensures
        r@.len() == tracks@.len(),
        forall|i: int| 0 <= i < r@.len() ==> converted_from(#[trigger] r@[i], tracks@[i]),
{
    let ghost all = tracks@;
    let mut rest = tracks;
    let mut out: Vec<MetadataCandidate> = Vec::new();
    let n = rest.len();
    while rest.len() > 0
        invariant
            all.len() == n,
            out@.len() + rest@.len() == all.len(),
            rest@ == all.skip(out@.len() as int),
            forall|i: int| 0 <= i < out@.len() ==> converted_from(#[trigger] out@[i], all[i]),
        decreases rest@.len(),
    {
        let t = rest.remove(0);
        assert(t == all[out@.len() as int]);
        assert(rest@ =~= all.skip(out@.len() + 1int));
        out.push(candidate_from_apple_track(t));
    }
    out
}

} // verus!
