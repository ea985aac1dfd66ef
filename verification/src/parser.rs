//! Parsing of the remote lookup's rendered results.
//!
//! The remote producer obtains two plain values from the external
//! lookup: the text of the results shelf as a list of lines, and the
//! video identifiers pulled out of the shelf's links.  The grammar of
//! one record in the line list: a song-name line; one or more artist
//! lines, terminated by a `" • "` separator line; an album line; one
//! ignored line; a duration line (`minutes:seconds`; a line without a
//! colon means the entry is unusable); and, for usable entries only, a
//! play-count line.  Each record consumes one identifier; unusable
//! entries yield no song.  Parsing stops cleanly at malformed or
//! truncated input, returning the records read so far.

use vstd::prelude::*;
use vstd::string::StrSliceExecFns;
use vstd::string::StringExecFns;

use crate::song::{Song, SongView};

verus! {

/// Index of the first element equal to `target` at or after `from`.
pub open spec fn first_at<T>(s: Seq<T>, target: T, from: int) -> Option<int>
    decreases s.len() - from,
{
    if !(0 <= from < s.len()) {
        None
    } else if s[from] == target {
        Some(from)
    } else {
        first_at(s, target, from + 1)
    }
}

proof fn lemma_first_at_found<T>(s: Seq<T>, target: T, from: int, idx: int)
    requires
        0 <= from <= idx < s.len(),
        s[idx] == target,
        forall|j: int| from <= j < idx ==> s[j] != target,
    ensures
        first_at(s, target, from) == Some(idx),
    decreases idx - from,
{
    if from < idx {
        lemma_first_at_found(s, target, from + 1, idx);
    }
}

proof fn lemma_first_at_none<T>(s: Seq<T>, target: T, from: int)
    requires
        0 <= from,
        forall|j: int| from <= j < s.len() ==> s[j] != target,
    ensures
        first_at(s, target, from) is None,
    decreases s.len() - from,
{
    if from < s.len() {
        lemma_first_at_none(s, target, from + 1);
    }
}

/// A character is a decimal digit (codepoints 48 through 57).
pub open spec fn is_digit(c: char) -> bool {
    48 <= c as u32 && c as u32 <= 57
}

/// Every character a digit, and at least one of them.
pub open spec fn is_digit_seq(s: Seq<char>) -> bool {
    s.len() > 0 && forall|i: int| 0 <= i < s.len() ==> is_digit(#[trigger] s[i])
}

/// Decimal value of a digit string, read left to right.
pub open spec fn digits_val(s: Seq<char>) -> int
    decreases s.len(),
{
    if s.len() == 0 {
        0
    } else {
        10 * digits_val(s.drop_last()) + (s.last() as u32 - 48)
    }
}

/// The value of a digit string is never negative.
proof fn lemma_digits_val_nonneg(s: Seq<char>)
    requires
        forall|i: int| 0 <= i < s.len() ==> is_digit(#[trigger] s[i]),
    ensures
        digits_val(s) >= 0,
    decreases s.len(),
{
    if s.len() > 0 {
        lemma_digits_val_nonneg(s.drop_last());
    }
}

/// Once a prefix's value is already past the machine range, every longer
/// prefix is too.
proof fn lemma_digits_val_grows(s: Seq<char>, j: int, j2: int)
    requires
        0 <= j <= j2 <= s.len(),
        digits_val(s.take(j)) > usize::MAX as int,
    ensures
        digits_val(s.take(j2)) > usize::MAX as int,
    decreases j2 - j,
{
    if j < j2 {
        assert(s.take(j + 1).drop_last() =~= s.take(j));
        assert(digits_val(s.take(j + 1)) == 10 * digits_val(s.take(j)) + (s.take(j + 1).last()
            as u32 - 48));
        lemma_digits_val_grows(s, j + 1, j2);
    }
}

/// Duration of a `minutes:seconds` line, in seconds.  A line without a
/// colon, or whose minute or second field is not a plain number in
/// machine range, counts as zero — the record is then unusable.  Text
/// after a second colon is ignored, as the source renders at most two
/// fields.
pub open spec fn spec_duration(s: Seq<char>) -> int {
    match first_at(s, ':', 0) {
        None => 0,
        Some(c) => {
            let minutes = s.take(c);
            let e = match first_at(s, ':', c + 1) {
                Some(e) => e,
                None => s.len() as int,
            };
            let seconds = s.subrange(c + 1, e);
            if is_digit_seq(minutes) && is_digit_seq(seconds) && 60 * digits_val(minutes)
                + digits_val(seconds) <= usize::MAX as int {
                60 * digits_val(minutes) + digits_val(seconds)
            } else {
                0
            }
        },
    }
}

/// Index of the first occurrence of `target` in `s@` at or after `from`,
/// with the raw scan facts callers fold into [`first_at`].
fn find_char(s: &str, target: char, from: usize) -> (r: Option<usize>)
    requires
        from <= s@.len(),
    ensures
        match r {
            Some(k) => {
                &&& from <= k < s@.len()
                &&& s@[k as int] == target
                &&& forall|j: int| from <= j < k ==> s@[j] != target
            },
            None => forall|j: int| from <= j < s@.len() ==> s@[j] != target,
        },
{
    let n = s.unicode_len();
    let mut k: usize = from;
    while k < n
        invariant
            from <= k <= n,
            n == s@.len(),
            forall|j: int| from <= j < k ==> s@[j] != target,
        decreases n - k,
    {
        if s.get_char(k) == target {
            return Some(k);
        }
        k = k + 1;
    }
    None
}

/// Value of the digit string `s@[from..to]`, or `None` when it is not a
/// plain number in machine range.
fn parse_digits(s: &str, from: usize, to: usize) -> (r: Option<usize>)
    requires
        from <= to,
        to <= s@.len(),
    ensures
        ({
            let sub = s@.subrange(from as int, to as int);
            match r {
                Some(v) => is_digit_seq(sub) && v as int == digits_val(sub),
                None => !(is_digit_seq(sub) && digits_val(sub) <= usize::MAX as int),
            }
        }),
{
    let ghost sub = s@.subrange(from as int, to as int);
    if from == to {
        return None;
    }
    let mut v: usize = 0;
    let mut k: usize = from;
    while k < to
        invariant
            from <= k <= to,
            to <= s@.len(),
            sub == s@.subrange(from as int, to as int),
            forall|j: int| from <= j < k ==> is_digit(#[trigger] s@[j]),
            v as int == digits_val(s@.subrange(from as int, k as int)),
        decreases to - k,
    {
        let c = s.get_char(k);
        let cv = c as u32;
        if cv < 48 || cv > 57 {
            assert(!is_digit(sub[k - from]));
            return None;
        }
        let d = (cv - 48) as usize;
        proof {
            assert(s@.subrange(from as int, k + 1).drop_last() =~= s@.subrange(
                from as int,
                k as int,
            ));
            assert(s@.subrange(from as int, k + 1).last() == s@[k as int]);
        }
        if (v as u128) * 10 + (d as u128) > usize::MAX as u128 {
            proof {
                assert(digits_val(s@.subrange(from as int, k + 1)) > usize::MAX as int);
                assert(sub.take(k + 1 - from) =~= s@.subrange(from as int, k + 1));
                lemma_digits_val_grows(sub, k + 1 - from, sub.len() as int);
                assert(sub.take(sub.len() as int) =~= sub);
            }
            return None;
        }
        v = v * 10 + d;
        k = k + 1;
    }
    proof {
        assert(s@.subrange(from as int, to as int) =~= sub);
        assert(forall|i: int| 0 <= i < sub.len() ==> is_digit(#[trigger] sub[i]));
    }
    Some(v)
}

/// Duration in seconds of a `minutes:seconds` line (see
/// [`spec_duration`]).
pub fn parse_duration(timestr: &str) -> (d: usize)
    ensures
        d as int == spec_duration(timestr@),
{
    let n = timestr.unicode_len();
    let colon = find_char(timestr, ':', 0);
    match colon {
        None => {
            proof {
                lemma_first_at_none(timestr@, ':', 0);
            }
            0
        },
        Some(c) => {
            proof {
                lemma_first_at_found(timestr@, ':', 0, c as int);
            }
            let e = match find_char(timestr, ':', c + 1) {
                Some(e) => {
                    proof {
                        lemma_first_at_found(timestr@, ':', c + 1, e as int);
                    }
                    e
                },
                None => {
                    proof {
                        lemma_first_at_none(timestr@, ':', c + 1);
                    }
                    n
                },
            };
            let minutes = parse_digits(timestr, 0, c);
            let seconds = parse_digits(timestr, c + 1, e);
            proof {
                assert(timestr@.subrange(0, c as int) =~= timestr@.take(c as int));
            }
            match (minutes, seconds) {
                (Some(m), Some(s2)) => {
                    if (m as u128) * 60 + (s2 as u128) <= usize::MAX as u128 {
                        m * 60 + s2
                    } else {
                        0
                    }
                },
                _ => {
                    proof {
                        let min_seq = timestr@.take(c as int);
                        let sec_seq = timestr@.subrange(c + 1, e as int);
                        if is_digit_seq(min_seq) && is_digit_seq(sec_seq) {
                            lemma_digits_val_nonneg(min_seq);
                            lemma_digits_val_nonneg(sec_seq);
                        }
                    }
                    0
                },
            }
        },
    }
}

/// The line separating artist lines from the album line.
pub open spec fn sep_line() -> Seq<char> {
    " \u{2022} "@
}

/// Concatenation of `lines[from..to]`.
pub open spec fn concat_lines(lines: Seq<Seq<char>>, from: int, to: int) -> Seq<char>
    decreases to - from,
{
    if from >= to {
        Seq::empty()
    } else {
        lines[from] + concat_lines(lines, from + 1, to)
    }
}

proof fn lemma_concat_snoc(lines: Seq<Seq<char>>, from: int, to: int)
    requires
        0 <= from <= to < lines.len(),
    ensures
        concat_lines(lines, from, to + 1) == concat_lines(lines, from, to) + lines[to],
    decreases to - from,
{
    if from == to {
        assert(concat_lines(lines, from + 1, to + 1) =~= Seq::<char>::empty());
        assert(concat_lines(lines, from, to + 1) =~= concat_lines(lines, from, to)
            + lines[to]);
    } else {
        lemma_concat_snoc(lines, from + 1, to);
        assert(concat_lines(lines, from, to + 1) =~= concat_lines(lines, from, to)
            + lines[to]);
    }
}

proof fn lemma_concat_shift(lines: Seq<Seq<char>>, l: int, a: int, b: int)
    requires
        0 <= l,
        0 <= a <= b,
        l + b <= lines.len(),
    ensures
        concat_lines(lines.skip(l), a, b) == concat_lines(lines, l + a, l + b),
    decreases b - a,
{
    if a < b {
        lemma_concat_shift(lines, l, a + 1, b);
        assert(lines.skip(l)[a] == lines[l + a]);
    }
}

/// The records read from the shelf text and the identifier list (see the
/// module description for the grammar).  Parsing stops at truncated or
/// malformed input, or when the identifiers run out, keeping what was
/// read so far.
pub open spec fn spec_parse_records(lines: Seq<Seq<char>>, ids: Seq<Seq<char>>) -> Seq<
    SongView,
>
    decreases lines.len(),
{
    if lines.len() < 7 || ids.len() == 0 {
        Seq::empty()
    } else {
        match first_at(lines, sep_line(), 2) {
            None => Seq::empty(),
            Some(sepidx) => {
                if sepidx < 2 || sepidx + 3 >= lines.len() {
                    Seq::empty()
                } else {
                    let duration = spec_duration(lines[sepidx + 3]);
                    if duration == 0 {
                        spec_parse_records(lines.skip(sepidx + 4), ids.drop_first())
                    } else if sepidx + 4 >= lines.len() {
                        Seq::empty()
                    } else {
                        seq![
                            SongView {
                                sql_id: 0,
                                name: lines[0],
                                artist: lines[1] + concat_lines(lines, 2, sepidx),
                                album: lines[sepidx + 1],
                                id: ids[0],
                                duration: duration,
                                file: None,
                            },
                        ] + spec_parse_records(lines.skip(sepidx + 5), ids.drop_first())
                    }
                }
            },
        }
    }
}

/// The views of a list of songs.
pub open spec fn views_of(songs: Seq<Song>) -> Seq<SongView> {
    songs.map_values(|s: Song| s@)
}

/// Index of the first line equal to `target` at or after `from`, with
/// the raw scan facts callers fold into [`first_at`].
fn find_line(lines: &Vec<String>, target: &String, from: usize) -> (r: Option<usize>)
    requires
        from <= lines@.len(),
    ensures
        match r {
            Some(k) => {
                &&& from <= k < lines@.len()
                &&& lines.deep_view()[k as int] == target@
                &&& forall|j: int| from <= j < k ==> lines.deep_view()[j] != target@
            },
            None => forall|j: int|
                from <= j < lines@.len() ==> lines.deep_view()[j] != target@,
        },
{
    let mut k: usize = from;
    while k < lines.len()
        invariant
            from <= k <= lines@.len(),
            forall|j: int| from <= j < k ==> lines.deep_view()[j] != target@,
        decreases lines@.len() - k,
    {
        if lines[k] == *target {
            return Some(k);
        }
        k = k + 1;
    }
    None
}

/// Parse the shelf text `lines` paired with the identifier list `ids`
/// into songs (see [`spec_parse_records`]).  The produced songs carry no
/// storage identity and no file yet; whether a song's target file
/// already exists on disk is the caller's concern.
pub fn parse_search_results(lines: &Vec<String>, ids: &Vec<String>) -> (songs: Vec<Song>)
    ensures
        views_of(songs@) == spec_parse_records(lines.deep_view(), ids.deep_view()),
{
    let ghost lv: Seq<Seq<char>> = lines.deep_view();
    let ghost iv: Seq<Seq<char>> = ids.deep_view();
    let sep: String = " \u{2022} ".to_owned();
    let mut songs: Vec<Song> = Vec::new();
    let mut l: usize = 0;
    let mut i: usize = 0;
    proof {
        assert(lv.skip(0) =~= lv);
        assert(iv.skip(0) =~= iv);
        assert(views_of(songs@) =~= Seq::<SongView>::empty());
    }
    loop
        invariant_except_break
            l <= lines@.len(),
            i <= ids@.len(),
            lv == lines.deep_view(),
            iv == ids.deep_view(),
            sep@ == sep_line(),
            views_of(songs@) + spec_parse_records(lv.skip(l as int), iv.skip(i as int))
                == spec_parse_records(lv, iv),
        ensures
            views_of(songs@) == spec_parse_records(lv, iv),
        decreases lines@.len() - l,
    {
        let ghost rem_l = lv.skip(l as int);
        let ghost rem_i = iv.skip(i as int);
        if lines.len() - l < 7 || i >= ids.len() {
            proof {
                assert(spec_parse_records(rem_l, rem_i) =~= Seq::<SongView>::empty());
                assert(views_of(songs@) + spec_parse_records(rem_l, rem_i) =~= views_of(
                    songs@,
                ));
            }
            break;
        }
        let found = find_line(lines, &sep, l + 2);
        let sepidx = match found {
            None => {
                proof {
                    assert forall|j: int| 2 <= j < rem_l.len() implies rem_l[j]
                        != sep_line() by {
                        assert(rem_l[j] == lv[l + j]);
                    }
                    lemma_first_at_none(rem_l, sep_line(), 2);
                    assert(spec_parse_records(rem_l, rem_i) =~= Seq::<SongView>::empty());
                    assert(views_of(songs@) + spec_parse_records(rem_l, rem_i)
                        =~= views_of(songs@));
                }
                break;
            },
            Some(k) => k,
        };
        let ghost relsep = sepidx - l;
        proof {
            assert(rem_l[relsep as int] == lv[sepidx as int]);
            assert forall|j: int| 2 <= j < relsep implies rem_l[j] != sep_line() by {
                assert(rem_l[j] == lv[l + j]);
            }
            lemma_first_at_found(rem_l, sep_line(), 2, relsep as int);
        }
        if lines.len() - sepidx < 4 {
            proof {
                assert(relsep + 3 >= rem_l.len());
                assert(spec_parse_records(rem_l, rem_i) =~= Seq::<SongView>::empty());
                assert(views_of(songs@) + spec_parse_records(rem_l, rem_i) =~= views_of(
                    songs@,
                ));
            }
            break;
        }
        let name = lines[l].clone();
        let mut artist = lines[l + 1].clone();
        let mut k2: usize = l + 2;
        proof {
            assert(artist@ =~= lv[l + 1] + concat_lines(lv, l + 2, l + 2));
        }
        while k2 < sepidx
            invariant
                l + 2 <= k2 <= sepidx,
                sepidx < lines@.len(),
                lv == lines.deep_view(),
                artist@ == lv[l as int + 1] + concat_lines(lv, l as int + 2, k2 as int),
            decreases sepidx - k2,
        {
            artist.append(lines[k2].as_str());
            proof {
                lemma_concat_snoc(lv, l as int + 2, k2 as int);
                assert(artist@ =~= lv[l as int + 1] + concat_lines(
                    lv,
                    l as int + 2,
                    k2 + 1,
                ));
            }
            k2 = k2 + 1;
        }
        let album = lines[sepidx + 1].clone();
        let duration = parse_duration(lines[sepidx + 3].as_str());
        proof {
            assert(rem_l[relsep + 3] == lv[sepidx + 3]);
            assert(rem_l[relsep + 1] == lv[sepidx + 1]);
            assert(rem_l[0] == lv[l as int]);
            assert(rem_l[1] == lv[l as int + 1]);
            assert(rem_i[0] == iv[i as int]);
        }
        if duration == 0 {
            proof {
                assert(rem_l.skip(relsep + 4) =~= lv.skip(sepidx + 4));
                assert(rem_i.drop_first() =~= iv.skip(i + 1));
                assert(spec_parse_records(rem_l, rem_i) == spec_parse_records(
                    lv.skip(sepidx + 4),
                    iv.skip(i + 1),
                ));
            }
            l = sepidx + 4;
            i = i + 1;
        } else {
            if lines.len() - sepidx < 5 {
                proof {
                    assert(relsep + 3 < rem_l.len() && relsep + 4 >= rem_l.len());
                    assert(spec_parse_records(rem_l, rem_i) =~= Seq::<SongView>::empty());
                    assert(views_of(songs@) + spec_parse_records(rem_l, rem_i)
                        =~= views_of(songs@));
                }
                break;
            }
            let id = ids[i].clone();
            let song = Song::new(0, name, artist, album, id, duration, None);
            let ghost record = SongView {
                sql_id: 0,
                name: rem_l[0],
                artist: rem_l[1] + concat_lines(rem_l, 2, relsep as int),
                album: rem_l[relsep + 1],
                id: rem_i[0],
                duration: duration as int,
                file: None,
            };
            proof {
                lemma_concat_shift(lv, l as int, 2, relsep as int);
                assert(song@ == record);
                assert(rem_l.skip(relsep + 5) =~= lv.skip(sepidx + 5));
                assert(rem_i.drop_first() =~= iv.skip(i + 1));
                assert(spec_parse_records(rem_l, rem_i) == seq![record]
                    + spec_parse_records(lv.skip(sepidx + 5), iv.skip(i + 1)));
            }
            let ghost prev = songs@;
            songs.push(song);
            proof {
                assert(views_of(songs@) =~= views_of(prev) + seq![record]);
                assert((views_of(prev) + seq![record]) + spec_parse_records(
                    lv.skip(sepidx + 5),
                    iv.skip(i + 1),
                ) =~= views_of(prev) + (seq![record] + spec_parse_records(
                    lv.skip(sepidx + 5),
                    iv.skip(i + 1),
                )));
            }
            l = sepidx + 5;
            i = i + 1;
        }
    }
    songs
}

/// Whether a shelf link is a watchable item: long enough, a `'w'` at
/// position 26 (where the address's path begins), and a `watch?v=` query
/// with the video identifier as its trailing value.
pub open spec fn watch_pattern() -> Seq<char> {
    "watch?v="@
}

/// The pattern occurs in `s` starting at `i`.
pub open spec fn match_at(s: Seq<char>, pat: Seq<char>, i: int) -> bool {
    0 <= i && i + pat.len() <= s.len() && s.subrange(i, i + pat.len()) == pat
}

/// Index of the first occurrence of `pat` in `s` at or after `from`.
pub open spec fn first_match_at(s: Seq<char>, pat: Seq<char>, from: int) -> Option<int>
    decreases s.len() + 1 - from,
{
    if from < 0 || from + pat.len() > s.len() {
        None
    } else if s.subrange(from, from + pat.len()) == pat {
        Some(from)
    } else {
        first_match_at(s, pat, from + 1)
    }
}

proof fn lemma_first_match_found(s: Seq<char>, pat: Seq<char>, from: int, idx: int)
    requires
        0 <= from <= idx,
        idx + pat.len() <= s.len(),
        match_at(s, pat, idx),
        forall|j: int| from <= j < idx ==> !match_at(s, pat, j),
    ensures
        first_match_at(s, pat, from) == Some(idx),
    decreases idx - from,
{
    if from < idx {
        assert(!match_at(s, pat, from));
        lemma_first_match_found(s, pat, from + 1, idx);
    }
}

proof fn lemma_first_match_none(s: Seq<char>, pat: Seq<char>, from: int)
    requires
        0 <= from,
        forall|j: int| from <= j ==> !match_at(s, pat, j),
    ensures
        first_match_at(s, pat, from) is None,
    decreases s.len() + 1 - from,
{
    if from + pat.len() <= s.len() {
        assert(!match_at(s, pat, from));
        lemma_first_match_none(s, pat, from + 1);
    }
}

/// The identifier a watchable shelf link names: the text after the first
/// `watch?v=` of an address whose path starts at position 26 with `'w'`.
pub open spec fn spec_video_id(addr: Seq<char>) -> Option<Seq<char>> {
    if addr.len() > 26 && addr[26] == 'w' {
        match first_match_at(addr, watch_pattern(), 0) {
            Some(m) => Some(addr.skip(m + watch_pattern().len())),
            None => None,
        }
    } else {
        None
    }
}

/// Whether `pat` occurs in `addr` starting at position `m`.
fn matches_at(addr: &str, pat: &str, m: usize) -> (r: bool)
    requires
        m + pat@.len() <= addr@.len(),
    ensures
        r == match_at(addr@, pat@, m as int),
{
    let n = addr.unicode_len();
    let plen = pat.unicode_len();
    let mut j: usize = 0;
    while j < plen
        invariant
            j <= plen,
            plen == pat@.len(),
            n == addr@.len(),
            m + plen <= n,
            forall|q: int| 0 <= q < j ==> addr@[m + q] == pat@[q],
        decreases plen - j,
    {
        if addr.get_char(m + j) != pat.get_char(j) {
            proof {
                assert(addr@.subrange(m as int, m as int + pat@.len() as int)[j as int]
                    == addr@[m + j]);
            }
            return false;
        }
        j = j + 1;
    }
    proof {
        assert(addr@.subrange(m as int, m as int + pat@.len() as int) =~= pat@);
    }
    true
}

/// Pull the video identifier out of one shelf link (see
/// [`spec_video_id`]); `None` for links that are not watchable items.
pub fn extract_video_id(addr: &str) -> (r: Option<String>)
    ensures
        match r {
            Some(id) => spec_video_id(addr@) == Some(id@),
            None => spec_video_id(addr@) is None,
        },
{
    let n = addr.unicode_len();
    if n <= 26 {
        return None;
    }
    if addr.get_char(26) != 'w' {
        return None;
    }
    let pat: &str = "watch?v=";
    proof {
        reveal_strlit("watch?v=");
        assert(pat@.len() == 8);
    }
    let mut m: usize = 0;
    while m <= n - 8
        invariant
            n == addr@.len(),
            n > 26,
            m <= n,
            pat@ == watch_pattern(),
            pat@.len() == 8,
            addr@[26] == 'w',
            forall|j: int| 0 <= j < m ==> !match_at(addr@, watch_pattern(), j),
        decreases n - m,
    {
        if matches_at(addr, pat, m) {
            proof {
                lemma_first_match_found(addr@, watch_pattern(), 0, m as int);
            }
            let id = addr.substring_char(m + 8, n).to_owned();
            proof {
                assert(id@ =~= addr@.skip(m as int + 8));
            }
            return Some(id);
        }
        m = m + 1;
    }
    proof {
        lemma_first_match_none(addr@, watch_pattern(), 0);
    }
    None
}

} // verus!
