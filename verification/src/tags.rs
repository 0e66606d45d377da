//! Deciding ID3 tags: what to write for resolved tags, what a file already
//! carries, which album artist and composer to keep, and artwork types.

use vstd::prelude::*;
use crate::model::{ExistingTags, Lyrics, MetadataCandidate, ResolvedTags, TrackIdentity};
use crate::musicbrainz::{infer_album_artist_only_if_safe, inferred_album_artist, MusicBrainzEnrichment};
use crate::text::{
    chars_eq_str, chars_of, clone_opt_string, decimal, opt_text, push_decimal, trim,
    trim_chars,
};

verus! {

/// The characters of `s` before its first `;` (all of `s` when it has none).
pub open spec fn before_semicolon(s: Seq<char>) -> Seq<char>
    decreases s.len(),
{
    if s.len() == 0 {
        s
    } else if s[0] == ';' {
        Seq::<char>::empty()
    } else {
        seq![s[0]] + before_semicolon(s.drop_first())
    }
}

/// The picture type stored for artwork: PNG when the media type (without
/// parameters, trimmed) says PNG, JPEG for anything else.
pub open spec fn picture_mime_type(mime: Seq<char>) -> Seq<char> {
    if trim(before_semicolon(mime)) == "image/png"@ {
        "image/png"@
    } else {
        "image/jpeg"@
    }
}

/// Maps an artwork media type onto the two picture types stored.
pub fn normalize_mime_type(mime_type: &str) -> (r: &'static str)
    ensures
        r@ == picture_mime_type(mime_type@),
{
    let c = chars_of(mime_type);
    let mut head: Vec<char> = Vec::new();
    let mut i: usize = 0;
    assert(c@.skip(0) =~= c@);
    assert(head@ + before_semicolon(c@.skip(0)) =~= before_semicolon(c@));
    while i < c.len() && c[i] != ';'
        invariant
            i <= c@.len(),
            head@ == c@.take(i as int),
            forall|k: int| 0 <= k < i ==> c@[k] != ';',
            before_semicolon(c@) == head@ + before_semicolon(c@.skip(i as int)),
        decreases c@.len() - i,
    {
        let ghost rest = c@.skip(i as int);
        assert(rest.drop_first() =~= c@.skip(i + 1));
        head.push(c[i]);
        assert(head@ + before_semicolon(c@.skip(i + 1)) =~= (head@.drop_last() + (seq![c@[i as int]]
            + before_semicolon(rest.drop_first()))));
        i = i + 1;
    }
    proof {
        assert(c@.skip(0) =~= c@);
        if i < c.len() {
            assert(before_semicolon(c@.skip(i as int)) =~= Seq::<char>::empty());
        } else {
            assert(c@.skip(i as int) =~= Seq::<char>::empty());
        }
        assert(head@ + Seq::<char>::empty() =~= head@);
    }
    let key = trim_chars(&head);
    if chars_eq_str(&key, "image/png") {
        "image/png"
    } else {
        "image/jpeg"
    }
}

/// The one front cover that replaces every picture of a file when artwork
/// is embedded.
#[derive(Clone, Debug)]
pub struct CoverArt {
    pub mime_type: String,
    pub description: String,
    pub data: Vec<u8>,
}

/// The cover to embed for an image: its media type mapped onto PNG or
/// JPEG, no description, and the image's bytes.
pub fn cover_art(image: Vec<u8>, mime_type: &str) -> (r: CoverArt)
    ensures
        r.mime_type@ == picture_mime_type(mime_type@),
        r.description@ == Seq::<char>::empty(),
        r.data@ == image@,
{
    let mut m = String::new();
    m.append(normalize_mime_type(mime_type));
    CoverArt { mime_type: m, description: String::new(), data: image }
}

/// The media type of downloaded artwork: the response's content type, or
/// JPEG when it has none.
pub fn downloaded_mime_type(content_type: Option<String>) -> (r: String)
    ensures
        content_type matches Some(t) ==> r == t,
        content_type is None ==> r@ == "image/jpeg"@,
{
    match content_type {
        Some(t) => t,
        None => {
            let mut s = String::new();
            s.append("image/jpeg");
            s
        },
    }
}

/// The number of bytes `c` takes in UTF-8.
pub open spec fn utf8_width(c: char) -> nat {
    let u = c as u32;
    if u < 0x80 {
        1
    } else if u < 0x800 {
        2
    } else if u < 0x10000 {
        3
    } else {
        4
    }
}

/// The leading characters of `s` that take exactly `n` bytes, if the
/// `n`-th byte ends a character.
pub open spec fn prefix_of_bytes(s: Seq<char>, n: nat) -> Option<Seq<char>>
    decreases s.len(),
{
    if n == 0 {
        Some(Seq::<char>::empty())
    } else if s.len() == 0 || utf8_width(s[0]) > n {
        None
    } else {
        match prefix_of_bytes(s.drop_first(), (n - utf8_width(s[0])) as nat) {
            Some(p) => Some(seq![s[0]] + p),
            None => None,
        }
    }
}

/// The part of a release date read as the year: its first four bytes when
/// they end on a character boundary (`str::get(0..4)`), else all of it.
pub open spec fn year_text(date: Seq<char>) -> Seq<char> {
    match prefix_of_bytes(date, 4) {
        Some(p) => p,
        None => date,
    }
}

/// The value of a non-empty run of ASCII digits.
pub open spec fn digits_value(t: Seq<char>) -> int
    decreases t.len(),
{
    if t.len() == 0 {
        0
    } else {
        digits_value(t.drop_last()) * 10 + (t.last() as int - 48)
    }
}

/// `t` is a non-empty run of ASCII digits.
pub open spec fn all_digits(t: Seq<char>) -> bool {
    t.len() > 0 && forall|i: int| 0 <= i < t.len() ==> '0' <= #[trigger] t[i] <= '9'
}

/// `str::parse::<i32>`: an optional `+` or `-` followed by ASCII digits,
/// whose value fits in an `i32`.
pub open spec fn parsed_i32(t: Seq<char>) -> Option<i32> {
    let neg = t.len() > 0 && t[0] == '-';
    let body = if t.len() > 0 && (t[0] == '-' || t[0] == '+') {
        t.drop_first()
    } else {
        t
    };
    if !all_digits(body) {
        None
    } else {
        let v = if neg {
            -digits_value(body)
        } else {
            digits_value(body)
        };
        if i32::MIN <= v <= i32::MAX {
            Some(v as i32)
        } else {
            None
        }
    }
}

/// The year written for a release date, when its year part parses.
pub open spec fn release_year(date: Seq<char>) -> Option<i32> {
    parsed_i32(year_text(date))
}

/// A date that begins with four ASCII digits has the year those digits
/// write, whatever follows; a date whose first character is a letter has
/// no year.
pub proof fn lemma_release_year_of_dates(date: Seq<char>)
    ensures
        date.len() >= 4 && ('0' <= date[0] <= '9') && ('0' <= date[1] <= '9') && ('0' <= date[2]
            <= '9') && ('0' <= date[3] <= '9') ==> release_year(date) == Some(
            ((date[0] as int - 48) * 1000 + (date[1] as int - 48) * 100 + (date[2] as int - 48)
                * 10 + (date[3] as int - 48)) as i32,
        ),
        date.len() > 0 && ('a' <= date[0] <= 'z' || 'A' <= date[0] <= 'Z') ==> release_year(date)
            is None,
{
    if date.len() >= 4 && ('0' <= date[0] <= '9') && ('0' <= date[1] <= '9') && ('0' <= date[2]
        <= '9') && ('0' <= date[3] <= '9') {
        reveal_with_fuel(prefix_of_bytes, 5);
        assert(date.drop_first().drop_first().drop_first().drop_first().len() >= 0);
        let t = date.take(4);
        assert(prefix_of_bytes(date.drop_first().drop_first().drop_first(), 1) == Some(
            seq![date[3]],
        )) by {
            let d3 = date.drop_first().drop_first().drop_first();
            assert(d3[0] == date[3]);
            assert(prefix_of_bytes(d3.drop_first(), 0) == Some(Seq::<char>::empty()));
            assert(seq![d3[0]] + Seq::<char>::empty() =~= seq![date[3]]);
        }
        assert(prefix_of_bytes(date, 4) == Some(t)) by {
            assert(seq![date[2]] + seq![date[3]] =~= t.subrange(2, 4));
            assert(seq![date[1]] + t.subrange(2, 4) =~= t.subrange(1, 4));
            assert(seq![date[0]] + t.subrange(1, 4) =~= t);
        }
        assert(year_text(date) == t);
        assert(all_digits(t));
        reveal_with_fuel(digits_value, 5);
        assert(t.drop_last().drop_last().drop_last().drop_last().len() == 0);
        assert(t.drop_last().drop_last().drop_last() =~= seq![date[0]]);
        assert(t.drop_last().drop_last() =~= seq![date[0], date[1]]);
        assert(t.drop_last() =~= seq![date[0], date[1], date[2]]);
    }
    if date.len() > 0 && ('a' <= date[0] <= 'z' || 'A' <= date[0] <= 'Z') {
        let y = year_text(date);
        assert(y.len() > 0 && y[0] == date[0]) by {
            reveal_with_fuel(prefix_of_bytes, 2);
            if prefix_of_bytes(date, 4) is Some {
                assert(utf8_width(date[0]) == 1);
            }
        }
        assert(!all_digits(y) || y[0] == '-' || y[0] == '+');
        if y.len() > 0 && (y[0] == '-' || y[0] == '+') {
        } else {
            assert(!all_digits(y)) by {
                assert(!('0' <= y[0] <= '9'));
            }
        }
    }
}

proof fn lemma_digits_value_grows(t: Seq<char>)
    requires
        all_digits(t),
    ensures
        digits_value(t) >= 0,
        t.len() > 1 ==> digits_value(t) >= digits_value(t.drop_last()),
    decreases t.len(),
{
    assert('0' <= t.last());
    assert(t.last() as int >= 48);
    if t.len() > 1 {
        assert(all_digits(t.drop_last()));
        lemma_digits_value_grows(t.drop_last());
    } else {
        assert(t.drop_last().len() == 0);
        assert(digits_value(t.drop_last()) == 0);
    }
}

fn utf8_width_exec(c: char) -> (w: usize)
    ensures
        w as nat == utf8_width(c),
{
    let u = c as u32;
    if u < 0x80 {
        1
    } else if u < 0x800 {
        2
    } else if u < 0x10000 {
        3
    } else {
        4
    }
}

/// The year part of a release date.
pub fn year_part(date: &Vec<char>) -> (r: Vec<char>)
    ensures
        r@ == year_text(date@),
{
    let mut used: usize = 0;
    let mut i: usize = 0;
    let mut head: Vec<char> = Vec::new();
    assert(date@.skip(0) =~= date@);
    while used < 4 && i < date.len() && used + utf8_width_exec(date[i]) <= 4
        invariant
            i <= date@.len(),
            used <= 4,
            head@ == date@.take(i as int),
            prefix_of_bytes(date@, 4) == match prefix_of_bytes(
                date@.skip(i as int),
                (4 - used) as nat,
            ) {
                Some(p) => Some(head@ + p),
                None => None,
            },
        decreases date@.len() - i,
    {
        let w = utf8_width_exec(date[i]);
        let ghost rest = date@.skip(i as int);
        assert(rest.drop_first() =~= date@.skip(i + 1));
        assert(rest[0] == date@[i as int]);
        head.push(date[i]);
        proof {
            match prefix_of_bytes(date@.skip(i + 1), (4 - used - w) as nat) {
                Some(p) => {
                    assert(head@ + p =~= date@.take(i as int) + (seq![date@[i as int]] + p));
                },
                None => {},
            }
        }
        used = used + w;
        i = i + 1;
    }
    if used == 4 {
        assert(prefix_of_bytes(date@.skip(i as int), 0) == Some(Seq::<char>::empty()));
        assert(head@ + Seq::<char>::empty() =~= head@);
        head
    } else {
        proof {
            let rest = date@.skip(i as int);
            if i < date.len() {
                assert(rest[0] == date@[i as int]);
            }
            assert(prefix_of_bytes(rest, (4 - used) as nat) is None);
        }
        let mut all: Vec<char> = Vec::new();
        let mut k: usize = 0;
        while k < date.len()
            invariant
                k <= date@.len(),
                all@ == date@.take(k as int),
            decreases date@.len() - k,
        {
            all.push(date[k]);
            k = k + 1;
        }
        assert(date@.take(date@.len() as int) =~= date@);
        all
    }
}

fn all_digits_from(t: &Vec<char>, start: usize) -> (r: bool)
    requires
        start <= t@.len(),
    ensures
        r == all_digits(t@.skip(start as int)),
{
    if start >= t.len() {
        return false;
    }
    let mut i: usize = start;
    while i < t.len()
        invariant
            start <= i <= t@.len(),
            forall|k: int| start <= k < i ==> '0' <= #[trigger] t@[k] <= '9',
        decreases t@.len() - i,
    {
        if t[i] < '0' || t[i] > '9' {
            assert(t@.skip(start as int)[i - start] == t@[i as int]);
            return false;
        }
        i = i + 1;
    }
    assert forall|k: int| 0 <= k < t@.skip(start as int).len() implies '0' <= #[trigger] t@.skip(
        start as int,
    )[k] <= '9' by {
        assert(t@.skip(start as int)[k] == t@[start + k]);
    }
    true
}

fn digits_value_bounded(t: &Vec<char>, start: usize, limit: i64) -> (r: Option<i64>)
    requires
        start < t@.len(),
        all_digits(t@.skip(start as int)),
        2147483647 <= limit <= 2147483648,
    ensures
        r matches Some(v) ==> v == digits_value(t@.skip(start as int)) && 0 <= v <= limit,
        r is None ==> digits_value(t@.skip(start as int)) > limit,
{
    let mut value: i64 = 0;
    let mut i: usize = start;
    assert(t@.subrange(start as int, start as int) =~= Seq::<char>::empty());
    while i < t.len()
        invariant
            start <= i <= t@.len(),
            all_digits(t@.skip(start as int)),
            2147483647 <= limit <= 2147483648,
            0 <= value <= limit,
            value == digits_value(t@.subrange(start as int, i as int)),
        decreases t@.len() - i,
    {
        let c = t[i];
        assert(t@.skip(start as int)[i - start] == c);
        assert('0' <= c <= '9');
        let d = ((c as u32) - 48) as i64;
        assert(0 <= d <= 9);
        let ghost next = t@.subrange(start as int, i + 1);
        assert(next.drop_last() =~= t@.subrange(start as int, i as int));
        assert(next.last() == c);
        assert(digits_value(next) == value * 10 + d);
        let q = (limit - d) / 10;
        assert(q == (limit - d) / 10);
        if value > q {
            assert(value * 10 + d > limit) by (nonlinear_arith)
                requires
                    value > q,
                    q == (limit - d) / 10,
                    0 <= d <= 9,
                    limit > 0,
            ;
            proof {
                lemma_digits_prefix_monotone(t@.skip(start as int), i + 1 - start);
                assert(t@.skip(start as int).take(i + 1 - start) =~= next);
            }
            return None;
        }
        assert(value * 10 + d <= limit) by (nonlinear_arith)
            requires
                value <= q,
                q == (limit - d) / 10,
                0 <= d <= 9,
                limit > 0,
                value >= 0,
        ;
        value = value * 10 + d;
        i = i + 1;
    }
    assert(t@.subrange(start as int, t@.len() as int) =~= t@.skip(start as int));
    Some(value)
}

proof fn lemma_digits_prefix_monotone(t: Seq<char>, k: int)
    requires
        all_digits(t),
        0 < k <= t.len(),
    ensures
        digits_value(t) >= digits_value(t.take(k)),
    decreases t.len() - k,
{
    if k < t.len() {
        assert(all_digits(t.drop_last()));
        assert(t.drop_last().take(k) =~= t.take(k));
        if k < t.len() - 1 {
            lemma_digits_prefix_monotone(t.drop_last(), k);
        } else {
            assert(t.drop_last().take(k) =~= t.drop_last());
        }
        lemma_digits_value_grows(t);
    } else {
        assert(t.take(k) =~= t);
    }
}

/// Parses an `i32` as `str::parse` does.
pub fn parse_i32(t: &Vec<char>) -> (r: Option<i32>)
    ensures
        r == parsed_i32(t@),
{
    let neg = t.len() > 0 && t[0] == '-';
    let start: usize = if t.len() > 0 && (t[0] == '-' || t[0] == '+') {
        1
    } else {
        0
    };
    let ghost body = if t@.len() > 0 && (t@[0] == '-' || t@[0] == '+') {
        t@.drop_first()
    } else {
        t@
    };
    assert(body =~= t@.skip(start as int));
    if !all_digits_from(t, start) {
        return None;
    }
    let limit: i64 = if neg {
        2147483648
    } else {
        2147483647
    };
    match digits_value_bounded(t, start, limit) {
        Some(v) => {
            assert(0 <= v <= limit);
            if neg {
                let w = 0 - v;
                assert(i32::MIN <= w <= i32::MAX);
                Some(w as i32)
            } else {
                assert(v <= i32::MAX);
                Some(v as i32)
            }
        },
        None => {
            assert(digits_value(body) > limit);
            None
        },
    }
}

/// The year to write for a release date.
pub fn parse_release_year(date: &str) -> (r: Option<i32>)
    ensures
        r == release_year(date@),
{
    let c = chars_of(date);
    let y = year_part(&c);
    parse_i32(&y)
}


/// The text frames written besides the standard fields.
#[derive(Clone, Copy, Debug, PartialEq, Eq, Structural)]
pub enum TextFrame {
    /// TCOM
    Composer,
    /// TSOP
    SortArtist,
    /// TSOA
    SortAlbum,
    /// TSO2
    SortAlbumArtist,
}

/// The ID3v2 frame identifier of a text frame.
pub open spec fn frame_id_text(f: TextFrame) -> Seq<char> {
    match f {
        TextFrame::Composer => "TCOM"@,
        TextFrame::SortArtist => "TSOP"@,
        TextFrame::SortAlbum => "TSOA"@,
        TextFrame::SortAlbumArtist => "TSO2"@,
    }
}

impl TextFrame {
    /// The ID3v2 frame identifier.
    pub fn frame_id(&self) -> (r: &'static str)
        ensures
            r@ == frame_id_text(*self),
    {
        match self {
            TextFrame::Composer => "TCOM",
            TextFrame::SortArtist => "TSOP",
            TextFrame::SortAlbum => "TSOA",
            TextFrame::SortAlbumArtist => "TSO2",
        }
    }
}

/// One change to make to a file's ID3 tag.
#[derive(Clone, Debug)]
pub enum TagEdit {
    Title(String),
    Artist(String),
    Album(String),
    AlbumArtist(String),
    Track(u32),
    TotalTracks(u32),
    Disc(u32),
    TotalDiscs(u32),
    Genre(String),
    Year(i32),
    Text(TextFrame, String),
    Lyrics(Lyrics),
}

/// A one-edit sequence for a present value, none for an absent one.
pub open spec fn edit_if(e: Option<TagEdit>) -> Seq<TagEdit> {
    match e {
        Some(x) => seq![x],
        None => Seq::<TagEdit>::empty(),
    }
}

/// The edits that write resolved tags, in order: title and artist always;
/// album, album artist, track, track total, disc, disc total and genre when
/// known; the year when the release date's year part parses; composer and
/// sort fields as text frames; and lyrics when given. Absent values leave
/// what the file has.
pub open spec fn planned_edits(t: ResolvedTags) -> Seq<TagEdit> {
    seq![TagEdit::Title(t.title), TagEdit::Artist(t.artist)] + edit_if(
        match t.album {
            Some(v) => Some(TagEdit::Album(v)),
            None => None,
        },
    ) + edit_if(
        match t.album_artist {
            Some(v) => Some(TagEdit::AlbumArtist(v)),
            None => None,
        },
    ) + edit_if(
        match t.track_number {
            Some(v) => Some(TagEdit::Track(v as u32)),
            None => None,
        },
    ) + edit_if(
        match t.track_total {
            Some(v) => Some(TagEdit::TotalTracks(v as u32)),
            None => None,
        },
    ) + edit_if(
        match t.disc_number {
            Some(v) => Some(TagEdit::Disc(v as u32)),
            None => None,
        },
    ) + edit_if(
        match t.disc_total {
            Some(v) => Some(TagEdit::TotalDiscs(v as u32)),
            None => None,
        },
    ) + edit_if(
        match t.genre {
            Some(v) => Some(TagEdit::Genre(v)),
            None => None,
        },
    ) + edit_if(
        match t.release_date {
            Some(d) => match release_year(d@) {
                Some(y) => Some(TagEdit::Year(y)),
                None => None,
            },
            None => None,
        },
    ) + edit_if(
        match t.composer {
            Some(v) => Some(TagEdit::Text(TextFrame::Composer, v)),
            None => None,
        },
    ) + edit_if(
        match t.sort_artist {
            Some(v) => Some(TagEdit::Text(TextFrame::SortArtist, v)),
            None => None,
        },
    ) + edit_if(
        match t.sort_album {
            Some(v) => Some(TagEdit::Text(TextFrame::SortAlbum, v)),
            None => None,
        },
    ) + edit_if(
        match t.sort_album_artist {
            Some(v) => Some(TagEdit::Text(TextFrame::SortAlbumArtist, v)),
            None => None,
        },
    ) + edit_if(
        match t.lyrics {
            Some(l) => Some(TagEdit::Lyrics(l)),
            None => None,
        },
    )
}

/// A copy of lyrics.
pub fn copy_lyrics(l: &Lyrics) -> (r: Lyrics)
    ensures
        r == *l,
{
    Lyrics {
        language: l.language.clone(),
        description: clone_opt_string(&l.description),
        text: l.text.clone(),
    }
}

fn push_edit(edits: &mut Vec<TagEdit>, e: Option<TagEdit>)
    ensures
        final(edits)@ == old(edits)@ + edit_if(e),
{
    match e {
        Some(x) => {
            edits.push(x);
            assert(old(edits)@.push(x) =~= old(edits)@ + seq![x]);
        },
        None => {
            assert(old(edits)@ + Seq::<TagEdit>::empty() =~= old(edits)@);
        },
    }
}

/// The edits that write resolved tags to a file's tag.
pub fn plan_tag_edits(tags: &ResolvedTags) -> (r: Vec<TagEdit>)
    ensures
        r@ == planned_edits(*tags),
{
    let mut edits: Vec<TagEdit> = Vec::new();
    edits.push(TagEdit::Title(tags.title.clone()));
    edits.push(TagEdit::Artist(tags.artist.clone()));
    assert(edits@ =~= seq![TagEdit::Title(tags.title), TagEdit::Artist(tags.artist)]);
    push_edit(
        &mut edits,
        match &tags.album {
            Some(v) => Some(TagEdit::Album(v.clone())),
            None => None,
        },
    );
    push_edit(
        &mut edits,
        match &tags.album_artist {
            Some(v) => Some(TagEdit::AlbumArtist(v.clone())),
            None => None,
        },
    );
    push_edit(
        &mut edits,
        match tags.track_number {
            Some(v) => Some(TagEdit::Track(v as u32)),
            None => None,
        },
    );
    push_edit(
        &mut edits,
        match tags.track_total {
            Some(v) => Some(TagEdit::TotalTracks(v as u32)),
            None => None,
        },
    );
    push_edit(
        &mut edits,
        match tags.disc_number {
            Some(v) => Some(TagEdit::Disc(v as u32)),
            None => None,
        },
    );
    push_edit(
        &mut edits,
        match tags.disc_total {
            Some(v) => Some(TagEdit::TotalDiscs(v as u32)),
            None => None,
        },
    );
    push_edit(
        &mut edits,
        match &tags.genre {
            Some(v) => Some(TagEdit::Genre(v.clone())),
            None => None,
        },
    );
    push_edit(
        &mut edits,
        match &tags.release_date {
            Some(d) => match parse_release_year(d.as_str()) {
                Some(y) => Some(TagEdit::Year(y)),
                None => None,
            },
            None => None,
        },
    );
    push_edit(
        &mut edits,
        match &tags.composer {
            Some(v) => Some(TagEdit::Text(TextFrame::Composer, v.clone())),
            None => None,
        },
    );
    push_edit(
        &mut edits,
        match &tags.sort_artist {
            Some(v) => Some(TagEdit::Text(TextFrame::SortArtist, v.clone())),
            None => None,
        },
    );
    push_edit(
        &mut edits,
        match &tags.sort_album {
            Some(v) => Some(TagEdit::Text(TextFrame::SortAlbum, v.clone())),
            None => None,
        },
    );
    push_edit(
        &mut edits,
        match &tags.sort_album_artist {
            Some(v) => Some(TagEdit::Text(TextFrame::SortAlbumArtist, v.clone())),
            None => None,
        },
    );
    push_edit(
        &mut edits,
        match &tags.lyrics {
            Some(l) => Some(TagEdit::Lyrics(copy_lyrics(l))),
            None => None,
        },
    );
    edits
}

/// The decimal text of a signed number, with a leading `-` when negative.
pub open spec fn signed_decimal(v: int) -> Seq<char> {
    if v < 0 {
        "-"@ + decimal((-v) as nat)
    } else {
        decimal(v as nat)
    }
}

/// A number that fits in `u16`, or nothing.
pub open spec fn fits_u16(v: Option<u32>) -> Option<u16> {
    match v {
        Some(n) => if n <= 65535 {
            Some(n as u16)
        } else {
            None
        },
        None => None,
    }
}

fn to_u16(v: Option<u32>) -> (r: Option<u16>)
    ensures
        r == fits_u16(v),
{
    match v {
        Some(n) => if n <= 65535 {
            Some(n as u16)
        } else {
            None
        },
        None => None,
    }
}

/// The tags a file carries, from the values its ID3 tag holds: the year is
/// kept as its decimal text, and track and disc numbers beyond `u16` are
/// dropped.
pub fn existing_tags_from(
    title: Option<String>,
    artist: Option<String>,
    album: Option<String>,
    album_artist: Option<String>,
    composer: Option<String>,
    genre: Option<String>,
    year: Option<i32>,
    track: Option<u32>,
    disc: Option<u32>,
    has_artwork: bool,
    has_lyrics: bool,
) -> (r: ExistingTags)
    ensures
        r.title == title,
        r.artist == artist,
        r.album == album,
        r.album_artist == album_artist,
        r.composer == composer,
        r.genre == genre,
        opt_text(r.release_date) == match year {
            Some(y) => Some(signed_decimal(y as int)),
            None => None,
        },
        r.track_number == fits_u16(track),
        r.disc_number == fits_u16(disc),
        r.has_artwork == has_artwork,
        r.has_lyrics == has_lyrics,
{
    let release_date = match year {
        Some(y) => {
            let mut s = String::new();
            if y < 0 {
                s.append("-");
                let m: i64 = 0 - (y as i64);
                push_decimal(&mut s, m as usize);
            } else {
                push_decimal(&mut s, y as usize);
            }
            Some(s)
        },
        None => None,
    };
    ExistingTags {
        title,
        artist,
        album,
        album_artist,
        composer,
        genre,
        release_date,
        track_number: to_u16(track),
        disc_number: to_u16(disc),
        has_artwork,
        has_lyrics,
    }
}

/// The album artist to write, in order of trust: the candidate's own album
/// artist (Apple's collection artist), MusicBrainz's release credit, the
/// file's existing album artist, and last the single-artist fallback when
/// it is low-risk.
pub open spec fn resolved_album_artist(
    candidate: MetadataCandidate,
    enrichment: Option<MusicBrainzEnrichment>,
    existing: ExistingTags,
    identity: TrackIdentity,
) -> Option<Seq<char>> {
    if candidate.album_artist is Some {
        opt_text(candidate.album_artist)
    } else if enrichment matches Some(e) && e.album_artist is Some {
        opt_text(enrichment->0.album_artist)
    } else if existing.album_artist is Some {
        opt_text(existing.album_artist)
    } else {
        inferred_album_artist(opt_text(identity.album), candidate.artist@, opt_text(candidate.album))
    }
}

/// Chooses the album artist to write.
pub fn resolve_album_artist(
    candidate: &MetadataCandidate,
    enrichment: &Option<MusicBrainzEnrichment>,
    existing: &ExistingTags,
    identity: &TrackIdentity,
) -> (r: Option<String>)
    ensures
        opt_text(r) == resolved_album_artist(*candidate, *enrichment, *existing, *identity),
{
    if let Some(a) = &candidate.album_artist {
        return Some(a.clone());
    }
    if let Some(e) = enrichment {
        if let Some(a) = &e.album_artist {
            return Some(a.clone());
        }
    }
    if let Some(a) = &existing.album_artist {
        return Some(a.clone());
    }
    infer_album_artist_only_if_safe(identity, candidate)
}

/// The composer to write: MusicBrainz's credit, else the file's existing
/// composer, else none. A composer is never guessed.
pub open spec fn resolved_composer(
    enrichment: Option<MusicBrainzEnrichment>,
    existing: ExistingTags,
) -> Option<String> {
    if enrichment matches Some(e) && e.composer is Some {
        enrichment->0.composer
    } else {
        existing.composer
    }
}

/// Chooses the composer to write.
pub fn resolve_composer(enrichment: &Option<MusicBrainzEnrichment>, existing: &ExistingTags) -> (r:
    Option<String>)
    ensures
        r == resolved_composer(*enrichment, *existing),
{
    if let Some(e) = enrichment {
        if let Some(c) = &e.composer {
            return Some(c.clone());
        }
    }
    clone_opt_string(&existing.composer)
}

/// The edits of a list of optional edits, in order.
pub open spec fn present_edits(opts: Seq<Option<TagEdit>>) -> Seq<TagEdit>
    decreases opts.len(),
{
    if opts.len() == 0 {
        Seq::<TagEdit>::empty()
    } else {
        present_edits(opts.drop_last()) + edit_if(opts.last())
    }
}

proof fn lemma_present_edits(opts: Seq<Option<TagEdit>>)
    ensures
        forall|i: int|
            0 <= i < present_edits(opts).len() ==> exists|j: int|
                0 <= j < opts.len() && opts[j] == Some(#[trigger] present_edits(opts)[i]),
        forall|j: int|
            0 <= j < opts.len() && (#[trigger] opts[j]) is Some ==> present_edits(opts).contains(
                opts[j]->0,
            ),
    decreases opts.len(),
{
    if opts.len() > 0 {
        let init = opts.drop_last();
        lemma_present_edits(init);
        let prev = present_edits(init);
        let all = present_edits(opts);
        assert forall|i: int| 0 <= i < all.len() implies exists|j: int|
            0 <= j < opts.len() && opts[j] == Some(#[trigger] all[i]) by {
            if i < prev.len() {
                assert(all[i] == prev[i]);
                let j = choose|j: int| 0 <= j < init.len() && init[j] == Some(prev[i]);
                assert(opts[j] == init[j]);
            } else {
                assert(opts[opts.len() - 1] == Some(all[i]));
            }
        }
        assert forall|j: int|
            0 <= j < opts.len() && (#[trigger] opts[j]) is Some implies all.contains(
                opts[j]->0,
            ) by {
            let e = opts[j]->0;
            if j < init.len() {
                assert(init[j] == Some(e));
                assert(prev.contains(e));
                let k = choose|k: int| 0 <= k < prev.len() && prev[k] == e;
                assert(all[k] == e);
            } else {
                assert(all[prev.len() as int] == e);
            }
        }
    }
}

/// The optional edit of each field, in the order they are written.
pub open spec fn field_edits(t: ResolvedTags) -> Seq<Option<TagEdit>> {
    seq![
        Some(TagEdit::Title(t.title)),
        Some(TagEdit::Artist(t.artist)),
        match t.album {
            Some(v) => Some(TagEdit::Album(v)),
            None => None,
        },
        match t.album_artist {
            Some(v) => Some(TagEdit::AlbumArtist(v)),
            None => None,
        },
        match t.track_number {
            Some(v) => Some(TagEdit::Track(v as u32)),
            None => None,
        },
        match t.track_total {
            Some(v) => Some(TagEdit::TotalTracks(v as u32)),
            None => None,
        },
        match t.disc_number {
            Some(v) => Some(TagEdit::Disc(v as u32)),
            None => None,
        },
        match t.disc_total {
            Some(v) => Some(TagEdit::TotalDiscs(v as u32)),
            None => None,
        },
        match t.genre {
            Some(v) => Some(TagEdit::Genre(v)),
            None => None,
        },
        match t.release_date {
            Some(d) => match release_year(d@) {
                Some(y) => Some(TagEdit::Year(y)),
                None => None,
            },
            None => None,
        },
        match t.composer {
            Some(v) => Some(TagEdit::Text(TextFrame::Composer, v)),
            None => None,
        },
        match t.sort_artist {
            Some(v) => Some(TagEdit::Text(TextFrame::SortArtist, v)),
            None => None,
        },
        match t.sort_album {
            Some(v) => Some(TagEdit::Text(TextFrame::SortAlbum, v)),
            None => None,
        },
        match t.sort_album_artist {
            Some(v) => Some(TagEdit::Text(TextFrame::SortAlbumArtist, v)),
            None => None,
        },
        match t.lyrics {
            Some(l) => Some(TagEdit::Lyrics(l)),
            None => None,
        },
    ]
}

proof fn lemma_planned_edits_are_field_edits(t: ResolvedTags)
    ensures
        planned_edits(t) == present_edits(field_edits(t)),
{
    let o = field_edits(t);
    reveal_with_fuel(present_edits, 16);
    assert(o.take(2).drop_last() =~= o.take(1));
    assert(o.take(1).drop_last() =~= o.take(0));
    assert(present_edits(o.take(2)) =~= seq![TagEdit::Title(t.title), TagEdit::Artist(t.artist)]);
    assert(o.take(3).drop_last() =~= o.take(2));
    assert(o.take(4).drop_last() =~= o.take(3));
    assert(o.take(5).drop_last() =~= o.take(4));
    assert(o.take(6).drop_last() =~= o.take(5));
    assert(o.take(7).drop_last() =~= o.take(6));
    assert(o.take(8).drop_last() =~= o.take(7));
    assert(o.take(9).drop_last() =~= o.take(8));
    assert(o.take(10).drop_last() =~= o.take(9));
    assert(o.take(11).drop_last() =~= o.take(10));
    assert(o.take(12).drop_last() =~= o.take(11));
    assert(o.take(13).drop_last() =~= o.take(12));
    assert(o.take(14).drop_last() =~= o.take(13));
    assert(o.take(15).drop_last() =~= o.take(14));
    assert(o.take(15) =~= o);
}

proof fn lemma_field_edit_kinds(t: ResolvedTags, j: int)
    requires
        0 <= j < 15,
        field_edits(t)[j] is Some,
    ensures
        field_edits(t)[j]->0 is Album ==> j == 2,
        field_edits(t)[j]->0 is AlbumArtist ==> j == 3,
        field_edits(t)[j]->0 is Genre ==> j == 8,
        field_edits(t)[j]->0 matches TagEdit::Text(TextFrame::Composer, _) ==> j == 10,
        field_edits(t)[j]->0 is Track ==> j == 4,
        field_edits(t)[j]->0 is TotalTracks ==> j == 5,
        field_edits(t)[j]->0 is Disc ==> j == 6,
        field_edits(t)[j]->0 is TotalDiscs ==> j == 7,
        field_edits(t)[j]->0 is Year ==> j == 9,
        field_edits(t)[j]->0 matches TagEdit::Text(TextFrame::SortArtist, _) ==> j == 11,
        field_edits(t)[j]->0 matches TagEdit::Text(TextFrame::SortAlbum, _) ==> j == 12,
        field_edits(t)[j]->0 matches TagEdit::Text(TextFrame::SortAlbumArtist, _) ==> j == 13,
        field_edits(t)[j]->0 is Lyrics ==> j == 14,
{
}

proof fn lemma_present_field_edits(t: ResolvedTags)
    ensures
        ({
            let q = present_edits(field_edits(t));
            &&& t.album is None ==> forall|i: int| 0 <= i < q.len() ==> !(#[trigger] q[i] is Album)
            &&& t.album_artist is None ==> forall|i: int|
                0 <= i < q.len() ==> !(#[trigger] q[i] is AlbumArtist)
            &&& t.genre is None ==> forall|i: int| 0 <= i < q.len() ==> !(#[trigger] q[i] is Genre)
            &&& t.composer is None ==> forall|i: int|
                0 <= i < q.len() ==> !(#[trigger] q[i] matches TagEdit::Text(TextFrame::Composer, _))
            &&& t.track_number is None ==> forall|i: int| 0 <= i < q.len() ==> !(#[trigger] q[i] is Track)
            &&& t.track_total is None ==> forall|i: int| 0 <= i < q.len() ==> !(#[trigger] q[i] is TotalTracks)
            &&& t.disc_number is None ==> forall|i: int| 0 <= i < q.len() ==> !(#[trigger] q[i] is Disc)
            &&& t.disc_total is None ==> forall|i: int| 0 <= i < q.len() ==> !(#[trigger] q[i] is TotalDiscs)
            &&& t.release_date is None ==> forall|i: int| 0 <= i < q.len() ==> !(#[trigger] q[i] is Year)
            &&& t.sort_artist is None ==> forall|i: int|
                0 <= i < q.len() ==> !(#[trigger] q[i] matches TagEdit::Text(TextFrame::SortArtist, _))
            &&& t.sort_album is None ==> forall|i: int|
                0 <= i < q.len() ==> !(#[trigger] q[i] matches TagEdit::Text(TextFrame::SortAlbum, _))
            &&& t.sort_album_artist is None ==> forall|i: int|
                0 <= i < q.len() ==> !(#[trigger] q[i] matches TagEdit::Text(TextFrame::SortAlbumArtist, _))
            &&& t.lyrics is None ==> forall|i: int| 0 <= i < q.len() ==> !(#[trigger] q[i] is Lyrics)
        }),
{
    let o = field_edits(t);
    let q = present_edits(o);
    lemma_present_edits(o);
    assert forall|i: int| 0 <= i < q.len() implies {
        &&& t.album is None ==> !(#[trigger] q[i] is Album)
        &&& t.album_artist is None ==> !(q[i] is AlbumArtist)
        &&& t.genre is None ==> !(q[i] is Genre)
        &&& t.composer is None ==> !(q[i] matches TagEdit::Text(TextFrame::Composer, _))
        &&& t.track_number is None ==> !(q[i] is Track)
        &&& t.track_total is None ==> !(q[i] is TotalTracks)
        &&& t.disc_number is None ==> !(q[i] is Disc)
        &&& t.disc_total is None ==> !(q[i] is TotalDiscs)
        &&& t.release_date is None ==> !(q[i] is Year)
        &&& t.sort_artist is None ==> !(q[i] matches TagEdit::Text(TextFrame::SortArtist, _))
        &&& t.sort_album is None ==> !(q[i] matches TagEdit::Text(TextFrame::SortAlbum, _))
        &&& t.sort_album_artist is None ==> !(q[i] matches TagEdit::Text(TextFrame::SortAlbumArtist, _))
        &&& t.lyrics is None ==> !(q[i] is Lyrics)
    } by {
        let j = choose|j: int| 0 <= j < o.len() && o[j] == Some(q[i]);
        lemma_field_edit_kinds(t, j);
    }
}

/// A field that is absent from the resolved tags gets no edit, so writing
/// leaves the file's frame for it as it was; a present field gets its
/// edit. Title and artist are always written first.
pub proof fn lemma_absent_fields_keep_frames(t: ResolvedTags)
    ensures
        planned_edits(t).len() >= 2,
        planned_edits(t)[0] == TagEdit::Title(t.title),
        planned_edits(t)[1] == TagEdit::Artist(t.artist),
        t.album is None ==> forall|i: int|
            0 <= i < planned_edits(t).len() ==> !(#[trigger] planned_edits(t)[i] is Album),
        t.album_artist is None ==> forall|i: int|
            0 <= i < planned_edits(t).len() ==> !(#[trigger] planned_edits(t)[i] is AlbumArtist),
        t.genre is None ==> forall|i: int|
            0 <= i < planned_edits(t).len() ==> !(#[trigger] planned_edits(t)[i] is Genre),
        t.composer is None ==> forall|i: int|
            0 <= i < planned_edits(t).len() ==> !(#[trigger] planned_edits(t)[i] matches TagEdit::Text(
                TextFrame::Composer,
                _,
            )),
        t.album matches Some(a) ==> planned_edits(t).contains(TagEdit::Album(a)),
        t.composer matches Some(c) ==> planned_edits(t).contains(
            TagEdit::Text(TextFrame::Composer, c),
        ),
        t.track_number matches Some(n) ==> planned_edits(t).contains(TagEdit::Track(n as u32)),
        t.album_artist matches Some(v) ==> planned_edits(t).contains(TagEdit::AlbumArtist(v)),
        t.track_total matches Some(n) ==> planned_edits(t).contains(TagEdit::TotalTracks(n as u32)),
        t.disc_number matches Some(n) ==> planned_edits(t).contains(TagEdit::Disc(n as u32)),
        t.disc_total matches Some(n) ==> planned_edits(t).contains(TagEdit::TotalDiscs(n as u32)),
        t.genre matches Some(g) ==> planned_edits(t).contains(TagEdit::Genre(g)),
        t.release_date matches Some(d) ==> (release_year(d@) matches Some(y) ==> planned_edits(
            t,
        ).contains(TagEdit::Year(y))),
        t.sort_artist matches Some(v) ==> planned_edits(t).contains(
            TagEdit::Text(TextFrame::SortArtist, v),
        ),
        t.sort_album matches Some(v) ==> planned_edits(t).contains(
            TagEdit::Text(TextFrame::SortAlbum, v),
        ),
        t.sort_album_artist matches Some(v) ==> planned_edits(t).contains(
            TagEdit::Text(TextFrame::SortAlbumArtist, v),
        ),
        t.lyrics matches Some(l) ==> planned_edits(t).contains(TagEdit::Lyrics(l)),
        t.track_number is None ==> forall|i: int|
            0 <= i < planned_edits(t).len() ==> !(#[trigger] planned_edits(t)[i] is Track),
        t.track_total is None ==> forall|i: int|
            0 <= i < planned_edits(t).len() ==> !(#[trigger] planned_edits(t)[i] is TotalTracks),
        t.disc_number is None ==> forall|i: int|
            0 <= i < planned_edits(t).len() ==> !(#[trigger] planned_edits(t)[i] is Disc),
        t.disc_total is None ==> forall|i: int|
            0 <= i < planned_edits(t).len() ==> !(#[trigger] planned_edits(t)[i] is TotalDiscs),
        t.release_date is None ==> forall|i: int|
            0 <= i < planned_edits(t).len() ==> !(#[trigger] planned_edits(t)[i] is Year),
        t.sort_artist is None ==> forall|i: int|
            0 <= i < planned_edits(t).len() ==> !(#[trigger] planned_edits(t)[i] matches TagEdit::Text(
                TextFrame::SortArtist,
                _,
            )),
        t.sort_album is None ==> forall|i: int|
            0 <= i < planned_edits(t).len() ==> !(#[trigger] planned_edits(t)[i] matches TagEdit::Text(
                TextFrame::SortAlbum,
                _,
            )),
        t.sort_album_artist is None ==> forall|i: int|
            0 <= i < planned_edits(t).len() ==> !(#[trigger] planned_edits(t)[i] matches TagEdit::Text(
                TextFrame::SortAlbumArtist,
                _,
            )),
        t.lyrics is None ==> forall|i: int|
            0 <= i < planned_edits(t).len() ==> !(#[trigger] planned_edits(t)[i] is Lyrics),
{
    lemma_planned_edits_are_field_edits(t);
    lemma_present_field_edits(t);
    lemma_present_field_contains(t);
    lemma_first_edits(t);
}

proof fn lemma_present_prefix(opts: Seq<Option<TagEdit>>, k: int)
    requires
        0 <= k <= opts.len(),
    ensures
        present_edits(opts.take(k)).len() <= present_edits(opts).len(),
        forall|i: int|
            0 <= i < present_edits(opts.take(k)).len() ==> #[trigger] present_edits(opts)[i]
                == present_edits(opts.take(k))[i],
    decreases opts.len(),
{
    if k < opts.len() {
        lemma_present_prefix(opts.drop_last(), k);
        assert(opts.drop_last().take(k) =~= opts.take(k));
    } else {
        assert(opts.take(k) =~= opts);
    }
}

proof fn lemma_first_edits(t: ResolvedTags)
    ensures
        present_edits(field_edits(t)).len() >= 2,
        present_edits(field_edits(t))[0] == TagEdit::Title(t.title),
        present_edits(field_edits(t))[1] == TagEdit::Artist(t.artist),
{
    let o = field_edits(t);
    lemma_present_prefix(o, 2);
    reveal_with_fuel(present_edits, 3);
    assert(o.take(2).drop_last() =~= o.take(1));
    assert(o.take(1).drop_last() =~= o.take(0));
    assert(present_edits(o.take(2)) =~= seq![TagEdit::Title(t.title), TagEdit::Artist(t.artist)]);
}

proof fn lemma_present_field_contains(t: ResolvedTags)
    ensures
        t.album matches Some(a) ==> present_edits(field_edits(t)).contains(TagEdit::Album(a)),
        t.composer matches Some(c) ==> present_edits(field_edits(t)).contains(
            TagEdit::Text(TextFrame::Composer, c),
        ),
        t.track_number matches Some(n) ==> present_edits(field_edits(t)).contains(
            TagEdit::Track(n as u32),
        ),
        t.album_artist matches Some(v) ==> present_edits(field_edits(t)).contains(TagEdit::AlbumArtist(v)),
        t.track_total matches Some(n) ==> present_edits(field_edits(t)).contains(TagEdit::TotalTracks(n as u32)),
        t.disc_number matches Some(n) ==> present_edits(field_edits(t)).contains(TagEdit::Disc(n as u32)),
        t.disc_total matches Some(n) ==> present_edits(field_edits(t)).contains(TagEdit::TotalDiscs(n as u32)),
        t.genre matches Some(g) ==> present_edits(field_edits(t)).contains(TagEdit::Genre(g)),
        t.release_date matches Some(d) ==> (release_year(d@) matches Some(y) ==> present_edits(
            field_edits(t),
        ).contains(TagEdit::Year(y))),
        t.sort_artist matches Some(v) ==> present_edits(field_edits(t)).contains(
            TagEdit::Text(TextFrame::SortArtist, v),
        ),
        t.sort_album matches Some(v) ==> present_edits(field_edits(t)).contains(
            TagEdit::Text(TextFrame::SortAlbum, v),
        ),
        t.sort_album_artist matches Some(v) ==> present_edits(field_edits(t)).contains(
            TagEdit::Text(TextFrame::SortAlbumArtist, v),
        ),
        t.lyrics matches Some(l) ==> present_edits(field_edits(t)).contains(TagEdit::Lyrics(l)),
{
    let o = field_edits(t);
    lemma_present_edits(o);
    if let Some(a) = t.album {
        assert(o[2] == Some(TagEdit::Album(a)));
    }
    if let Some(c) = t.composer {
        assert(o[10] == Some(TagEdit::Text(TextFrame::Composer, c)));
    }
    if let Some(n) = t.track_number {
        assert(o[4] == Some(TagEdit::Track(n as u32)));
    }
    if let Some(v) = t.album_artist {
        assert(o[3] == Some(TagEdit::AlbumArtist(v)));
    }
    if let Some(n) = t.track_total {
        assert(o[5] == Some(TagEdit::TotalTracks(n as u32)));
    }
    if let Some(n) = t.disc_number {
        assert(o[6] == Some(TagEdit::Disc(n as u32)));
    }
    if let Some(n) = t.disc_total {
        assert(o[7] == Some(TagEdit::TotalDiscs(n as u32)));
    }
    if let Some(g) = t.genre {
        assert(o[8] == Some(TagEdit::Genre(g)));
    }
    if let Some(d) = t.release_date {
        if let Some(y) = release_year(d@) {
            assert(o[9] == Some(TagEdit::Year(y)));
        }
    }
    if let Some(v) = t.sort_artist {
        assert(o[11] == Some(TagEdit::Text(TextFrame::SortArtist, v)));
    }
    if let Some(v) = t.sort_album {
        assert(o[12] == Some(TagEdit::Text(TextFrame::SortAlbum, v)));
    }
    if let Some(v) = t.sort_album_artist {
        assert(o[13] == Some(TagEdit::Text(TextFrame::SortAlbumArtist, v)));
    }
    if let Some(l) = t.lyrics {
        assert(o[14] == Some(TagEdit::Lyrics(l)));
    }
}

/// The album artist follows the documented priority: the candidate's own
/// album artist first; else MusicBrainz's release credit; else the file's
/// existing album artist; else the safe single-artist inference.
pub proof fn lemma_album_artist_priority(
    candidate: MetadataCandidate,
    enrichment: Option<MusicBrainzEnrichment>,
    existing: ExistingTags,
    identity: TrackIdentity,
)
    ensures
        candidate.album_artist matches Some(a) ==> resolved_album_artist(
            candidate,
            enrichment,
            existing,
            identity,
        ) == Some(a@),
        candidate.album_artist is None ==> (enrichment matches Some(e) ==> (e.album_artist matches Some(
            b,
        ) ==> resolved_album_artist(candidate, enrichment, existing, identity) == Some(b@))),
        candidate.album_artist is None && (enrichment is None || enrichment->0.album_artist is None)
            ==> (existing.album_artist matches Some(c) ==> resolved_album_artist(
            candidate,
            enrichment,
            existing,
            identity,
        ) == Some(c@)),
        candidate.album_artist is None && (enrichment is None || enrichment->0.album_artist is None)
            && existing.album_artist is None ==> resolved_album_artist(
            candidate,
            enrichment,
            existing,
            identity,
        ) == inferred_album_artist(
            opt_text(identity.album),
            candidate.artist@,
            opt_text(candidate.album),
        ),
        enrichment matches Some(e) ==> (e.composer matches Some(c) ==> resolved_composer(
            enrichment,
            existing,
        ) == Some(c)),
        (enrichment is None || enrichment->0.composer is None) ==> resolved_composer(
            enrichment,
            existing,
        ) == existing.composer,
{
}

/// Credits are never invented: the album artist chosen is the candidate's
/// album artist, MusicBrainz's release credit, the file's existing album
/// artist, or the candidate's (trimmed) track artist; the composer chosen
/// is MusicBrainz's credit or the file's existing composer.
pub proof fn lemma_credits_never_invented(
    candidate: MetadataCandidate,
    enrichment: Option<MusicBrainzEnrichment>,
    existing: ExistingTags,
    identity: TrackIdentity,
)
    ensures
        resolved_album_artist(candidate, enrichment, existing, identity) matches Some(a) ==> {
            ||| opt_text(candidate.album_artist) == Some(a)
            ||| enrichment matches Some(e) && opt_text(e.album_artist) == Some(a)
            ||| opt_text(existing.album_artist) == Some(a)
            ||| a == trim(candidate.artist@)
        },
        resolved_composer(enrichment, existing) matches Some(c) ==> {
            ||| enrichment matches Some(e) && e.composer == Some(c)
            ||| existing.composer == Some(c)
        },
{
}

/// The tags proposed from the best candidate, with the album artist and
/// composer chosen for it; no sort fields and no lyrics.
pub fn propose_tags(
    best: &MetadataCandidate,
    album_artist: Option<String>,
    composer: Option<String>,
) -> (r: ResolvedTags)
    ensures
        r.title == best.title,
        r.artist == best.artist,
        r.album == best.album,
        r.album_artist == album_artist,
        r.track_number == best.track_number,
        r.track_total == best.track_total,
        r.disc_number == best.disc_number,
        r.disc_total == best.disc_total,
        r.release_date == best.release_date,
        r.genre == best.genre,
        r.composer == composer,
        r.sort_artist is None,
        r.sort_album is None,
        r.sort_album_artist is None,
        r.lyrics is None,
{
    ResolvedTags {
        title: best.title.clone(),
        artist: best.artist.clone(),
        album: clone_opt_string(&best.album),
        album_artist,
        track_number: best.track_number,
        track_total: best.track_total,
        disc_number: best.disc_number,
        disc_total: best.disc_total,
        release_date: clone_opt_string(&best.release_date),
        genre: clone_opt_string(&best.genre),
        composer,
        sort_artist: None,
        sort_album: None,
        sort_album_artist: None,
        lyrics: None,
    }
}


/// The writer of ID3 tags into MP3 files.
#[derive(Clone, Copy, Debug)]
pub struct Id3Mp3TagWriter;

} // verus!
