//! Clipboard entries and the substring filter over them.

use crate::common::css::{char_truncate, truncated};
use crate::text::{
    append_chars, ascii_digit, contains, decimal_digits, digits_of, find_char, first_index, from_chars, has_substring,
    is_ascii_digit, is_text, lines, lowercase_of, lowered, lowered_chars, slice_of,
    split_whitespace, starts_with, strip_matches, text_lines, to_chars, trim, trim_end_matches,
    trim_start_matches, trimmed, uppercase_of, uppered_chars, views, words,
};
use vstd::prelude::*;

verus! {

/// One entry of the clipboard history.
#[derive(Clone, Debug)]
pub struct ClipEntry {
    pub raw_line: String,
    pub id: String,
    pub preview: String,
    pub is_image: bool,
    pub thumb_path: Option<String>,
}

impl ClipEntry {
    /// A copy of this entry, equal to it in every field.
    pub fn duplicate(&self) -> (r: Self)
        ensures
            r == *self,
    {
        let thumb_path = match &self.thumb_path {
            Some(p) => Some(p.clone()),
            None => None,
        };
        ClipEntry {
            raw_line: self.raw_line.clone(),
            id: self.id.clone(),
            preview: self.preview.clone(),
            is_image: self.is_image,
            thumb_path,
        }
    }
}

/// Whether an entry with this preview is shown for `query`: the empty
/// query shows every entry, any other query those whose preview holds it,
/// case ignored.
pub open spec fn matches_query(preview: Seq<char>, query: Seq<char>) -> bool {
    query.len() == 0 || contains(lowercase_of(preview), lowercase_of(query))
}

/// The entries shown for `query`: those that match, in the order given.
pub open spec fn filtered(entries: Seq<ClipEntry>, query: Seq<char>) -> Seq<ClipEntry>
    decreases entries.len(),
{
    if entries.len() == 0 {
        Seq::empty()
    } else {
        let rest = filtered(entries.drop_last(), query);
        if matches_query(entries.last().preview@, query) {
            rest.push(entries.last())
        } else {
            rest
        }
    }
}

/// The entry at row `idx` of the filtered list, if the list has that row.
pub open spec fn resolved(entries: Seq<ClipEntry>, query: Seq<char>, idx: int) -> Option<
    ClipEntry,
> {
    let list = filtered(entries, query);
    if 0 <= idx < list.len() {
        Some(list[idx])
    } else {
        None
    }
}

/// The entries shown for `query`: every entry for the empty query, else
/// those whose preview holds the query, case ignored. The order is that of
/// `entries`; the first row is the one to select by default.
pub fn filter_entries(entries: &[ClipEntry], query: &str) -> (r: Vec<ClipEntry>)
    ensures
        r@ == filtered(entries@, query@),
{
    let q = lowered(query);
    let all = query.is_empty();
    let mut out: Vec<ClipEntry> = Vec::new();
    let mut i: usize = 0;
    while i < entries.len()
        invariant
            i <= entries.len(),
            q@ == lowercase_of(query@),
            all == (query@.len() == 0),
            out@ == filtered(entries@.take(i as int), query@),
        decreases entries.len() - i,
    {
        proof {
            assert(entries@.take(i + 1).drop_last() == entries@.take(i as int));
        }
        let shown = all || {
            let p = lowered(entries[i].preview.as_str());
            has_substring(&p, &q)
        };
        if shown {
            out.push(entries[i].duplicate());
        }
        i += 1;
    }
    assert(entries@.take(entries.len() as int) == entries@);
    out
}

/// The entry at row `idx` of the list shown for `query`, if the list has
/// that row.
pub fn get_filtered_entry(entries: &[ClipEntry], query: &str, idx: usize) -> (r: Option<ClipEntry>)
    ensures
        r == resolved(entries@, query@, idx as int),
{
    let list = filter_entries(entries, query);
    if idx < list.len() {
        Some(list[idx].duplicate())
    } else {
        None
    }
}

/// The number of matching entries among the first `i`: the row that entry
/// `i` takes in the filtered list, if it matches.
pub open spec fn row_of(entries: Seq<ClipEntry>, query: Seq<char>, i: int) -> nat {
    filtered(entries.take(i), query).len()
}

/// An entry is shown exactly if it matches, and the shown entries keep
/// their order: a matching entry stands at the row given by the number of
/// matching entries before it.
pub proof fn lemma_matching_entries_are_shown(entries: Seq<ClipEntry>, query: Seq<char>, i: int)
    requires
        0 <= i < entries.len(),
        matches_query(entries[i].preview@, query),
    ensures
        row_of(entries, query, i) < filtered(entries, query).len(),
        filtered(entries, query)[row_of(entries, query, i) as int] == entries[i],
    decreases entries.len(),
{
    let front = entries.drop_last();
    if i == entries.len() - 1 {
        assert(entries.take(i) == front);
    } else {
        assert(front.take(i) == entries.take(i));
        lemma_matching_entries_are_shown(front, query, i);
    }
}

/// Whether row `row` of the filtered list holds entry `i`, which matches
/// and has `row` matching entries before it.
pub open spec fn shows(entries: Seq<ClipEntry>, query: Seq<char>, row: int, i: int) -> bool {
    &&& 0 <= i < entries.len()
    &&& 0 <= row < filtered(entries, query).len()
    &&& entries[i] == filtered(entries, query)[row]
    &&& matches_query(entries[i].preview@, query)
    &&& row_of(entries, query, i) == row
}

/// Every row of the filtered list is an entry that matches, and the rows
/// follow the order of the entries: the lemma returns the index of the
/// entry that stands at `row`.
pub proof fn lemma_shown_entries_match(entries: Seq<ClipEntry>, query: Seq<char>, row: int) -> (i:
    int)
    requires
        0 <= row < filtered(entries, query).len(),
    ensures
        shows(entries, query, row, i),
    decreases entries.len(),
{
    let front = entries.drop_last();
    if row < filtered(front, query).len() {
        let i = lemma_shown_entries_match(front, query, row);
        assert(front.take(i) == entries.take(i));
        assert(entries[i] == front[i]);
        i
    } else {
        let i = entries.len() - 1;
        assert(entries.take(i) == front);
        i
    }
}

/// The filtered list is no longer than the list of entries.
pub proof fn lemma_filtered_len(entries: Seq<ClipEntry>, query: Seq<char>)
    ensures
        filtered(entries, query).len() <= entries.len(),
    decreases entries.len(),
{
    if entries.len() > 0 {
        lemma_filtered_len(entries.drop_last(), query);
    }
}

/// With the empty query every entry is shown, in the order given.
pub proof fn lemma_empty_query_shows_all(entries: Seq<ClipEntry>, query: Seq<char>)
    requires
        query.len() == 0,
    ensures
        filtered(entries, query) == entries,
    decreases entries.len(),
{
    if entries.len() > 0 {
        lemma_empty_query_shows_all(entries.drop_last(), query);
        assert(entries.drop_last().push(entries.last()) == entries);
    }
}

/// Resolving a row gives the entry that stands at that row of the
/// filtered list, for every row of the list, and nothing beyond its end.
pub proof fn lemma_resolve_round_trip(entries: Seq<ClipEntry>, query: Seq<char>, idx: int)
    ensures
        0 <= idx < filtered(entries, query).len() ==> resolved(entries, query, idx) == Some(
            filtered(entries, query)[idx],
        ),
        idx >= filtered(entries, query).len() ==> resolved(entries, query, idx) is None,
{
}

/// The kind of content that an entry holds, as shown in its badge:
/// `IMAGE` for an image, `URL` for a text that starts with `http://` or
/// `https://` once trimmed, else `TEXT`.
pub open spec fn content_label(e: ClipEntry) -> Seq<char> {
    if e.is_image {
        "IMAGE"@
    } else if "http://"@.is_prefix_of(trim(e.preview@)) || "https://"@.is_prefix_of(
        trim(e.preview@),
    ) {
        "URL"@
    } else {
        "TEXT"@
    }
}

/// The kind of content that an entry holds: `IMAGE`, `URL` or `TEXT`.
pub fn content_type(e: &ClipEntry) -> (r: &'static str)
    ensures
        r@ == content_label(*e),
{
    if e.is_image {
        return "IMAGE";
    }
    let p = trimmed(&to_chars(e.preview.as_str()));
    if starts_with(&p, &to_chars("http://")) || starts_with(&p, &to_chars("https://")) {
        "URL"
    } else {
        "TEXT"
    }
}

/// Whether a word gives the dimensions of an image: it holds an `x`, and
/// nothing but digits and `x`.
pub open spec fn is_dims(word: Seq<char>) -> bool {
    &&& word.contains('x')
    &&& forall|i: int| 0 <= i < word.len() ==> is_ascii_digit(#[trigger] word[i]) || word[i] == 'x'
}

/// Whether a lower-case word names an image format.
pub open spec fn is_format(word: Seq<char>) -> bool {
    ||| word == "png"@
    ||| word == "jpg"@
    ||| word == "jpeg"@
    ||| word == "gif"@
    ||| word == "bmp"@
    ||| word == "webp"@
}

/// The last of `words` that gives dimensions.
pub open spec fn last_dims(words: Seq<Seq<char>>) -> Option<Seq<char>>
    decreases words.len(),
{
    if words.len() == 0 {
        None
    } else if is_dims(words.last()) {
        Some(words.last())
    } else {
        last_dims(words.drop_last())
    }
}

/// The last of `words` that names an image format, in upper case.
pub open spec fn last_format(words: Seq<Seq<char>>) -> Option<Seq<char>>
    decreases words.len(),
{
    if words.len() == 0 {
        None
    } else if is_format(lowercase_of(words.last())) {
        Some(uppercase_of(words.last()))
    } else {
        last_format(words.drop_last())
    }
}

/// The words of an image preview: what stands between the leading
/// `[[ binary data` and the trailing `]]`.
pub open spec fn meta_words(preview: Seq<char>) -> Seq<Seq<char>> {
    split_whitespace(
        trim(trim_end_matches(trim_start_matches(preview, "[[ binary data"@), "]]"@)),
    )
}

/// The description of an image: its dimensions and its format, joined by
/// ` -- ` where the preview gives both; `None` where it gives neither.
pub open spec fn image_meta(preview: Seq<char>) -> Option<Seq<char>> {
    let words = meta_words(preview);
    match (last_dims(words), last_format(words)) {
        (Some(d), Some(f)) => Some(d + seq![' ', '-', '-', ' '] + f),
        (Some(d), None) => Some(d),
        (None, Some(f)) => Some(f),
        (None, None) => None,
    }
}

/// Whether a word gives the dimensions of an image.
pub fn dims_word(word: &Vec<char>) -> (r: bool)
    ensures
        r == is_dims(word@),
{
    let mut has_x = false;
    let mut i: usize = 0;
    while i < word.len()
        invariant
            i <= word.len(),
            has_x == word@.take(i as int).contains('x'),
            forall|k: int| 0 <= k < i ==> is_ascii_digit(#[trigger] word@[k]) || word@[k] == 'x',
        decreases word.len() - i,
    {
        let c = word[i];
        if c == 'x' {
            has_x = true;
        } else if !ascii_digit(c) {
            return false;
        }
        proof {
            let before = word@.take(i as int);
            let after = word@.take(i + 1);
            assert(after == before.push(c));
            if before.contains('x') {
                let k = choose|k: int| 0 <= k < before.len() && before[k] == 'x';
                assert(after[k] == 'x');
            }
            if c == 'x' {
                assert(after[i as int] == 'x');
            }
            if after.contains('x') && c != 'x' {
                let k = choose|k: int| 0 <= k < after.len() && after[k] == 'x';
                assert(before[k] == 'x');
            }
        }
        i += 1;
    }
    assert(word@.take(word.len() as int) == word@);
    has_x
}

/// Whether a lower-case word names an image format.
pub fn format_word(word: &Vec<char>) -> (r: bool)
    ensures
        r == is_format(word@),
{
    is_text(word, "png") || is_text(word, "jpg") || is_text(word, "jpeg") || is_text(word, "gif")
        || is_text(word, "bmp") || is_text(word, "webp")
}

/// Describes an image from its preview line, which reads
/// `[[ binary data <size> <format> <width>x<height> ]]`: the dimensions and
/// the format in upper case, as `<width>x<height> -- <FORMAT>`, or the one
/// of them that the preview gives, or `None`.
pub fn parse_image_meta(preview: &str) -> (r: Option<String>)
    ensures
        match r {
            Some(s) => image_meta(preview@) == Some(s@),
            None => image_meta(preview@) is None,
        },
{
    let chars = to_chars(preview);
    let head = to_chars("[[ binary data");
    let tail = to_chars("]]");
    let inner = trimmed(&strip_matches(&chars, &head, &tail));
    let parts = words(&inner);
    let mut dims: Option<Vec<char>> = None;
    let mut fmt: Option<Vec<char>> = None;
    let mut i: usize = 0;
    while i < parts.len()
        invariant
            i <= parts.len(),
            views(parts@) == meta_words(preview@),
            match dims {
                Some(d) => last_dims(views(parts@).take(i as int)) == Some(d@),
                None => last_dims(views(parts@).take(i as int)) is None,
            },
            match fmt {
                Some(f) => last_format(views(parts@).take(i as int)) == Some(f@),
                None => last_format(views(parts@).take(i as int)) is None,
            },
        decreases parts.len() - i,
    {
        proof {
            let v = views(parts@);
            assert(v.take(i + 1).drop_last() == v.take(i as int));
            assert(v.take(i + 1).last() == parts@[i as int]@);
        }
        if dims_word(&parts[i]) {
            dims = Some(parts[i].clone());
        }
        if format_word(&lowered_chars(&parts[i])) {
            fmt = Some(uppered_chars(&parts[i]));
        }
        i += 1;
    }
    proof {
        let v = views(parts@);
        assert(v.take(parts.len() as int) == v);
    }
    match (dims, fmt) {
        (Some(d), Some(f)) => {
            let mut out = d;
            out.push(' ');
            out.push('-');
            out.push('-');
            out.push(' ');
            let mut k: usize = 0;
            let ghost head = out@;
            while k < f.len()
                invariant
                    k <= f.len(),
                    out@ == head + f@.take(k as int),
                decreases f.len() - k,
            {
                out.push(f[k]);
                assert(head + f@.take(k + 1) == (head + f@.take(k as int)).push(f@[k as int]));
                k += 1;
            }
            assert(f@.take(f.len() as int) == f@);
            Some(from_chars(&out))
        },
        (Some(d), None) => Some(from_chars(&d)),
        (None, Some(f)) => Some(from_chars(&f)),
        (None, None) => None,
    }
}

/// How many characters of a preview a notification shows.
pub const NOTICE_PREVIEW: usize = 50;

/// An entry as mathematical values.
pub struct ClipView {
    pub raw_line: Seq<char>,
    pub id: Seq<char>,
    pub preview: Seq<char>,
    pub is_image: bool,
    pub thumb_path: Option<Seq<char>>,
}

impl View for ClipEntry {
    type V = ClipView;

    open spec fn view(&self) -> ClipView {
        ClipView {
            raw_line: self.raw_line@,
            id: self.id@,
            preview: self.preview@,
            is_image: self.is_image,
            thumb_path: match self.thumb_path {
                Some(p) => Some(p@),
                None => None,
            },
        }
    }
}

/// The entry that one line of the history listing gives. The line reads
/// `<id>\t<preview>`; the id is trimmed. A line without a tab is id and
/// preview at once. An entry is an image where its preview holds
/// `[[ binary data`. No thumbnail is known yet.
pub open spec fn entry_of(line: Seq<char>) -> ClipView {
    let t = first_index(line, '\t');
    let (id, preview) = if 0 <= t < line.len() {
        (trim(line.take(t)), line.skip(t + 1))
    } else {
        (line, line)
    };
    ClipView {
        raw_line: line,
        id,
        preview,
        is_image: contains(preview, "[[ binary data"@),
        thumb_path: None,
    }
}

/// The entries that the lines give, in order: one for each line that is
/// not empty, and no more than `room` where a limit is set.
pub open spec fn entries_from(all: Seq<Seq<char>>, room: Option<nat>) -> Seq<ClipView>
    decreases all.len(),
{
    if all.len() == 0 || room == Some(0nat) {
        Seq::empty()
    } else if all[0].len() == 0 {
        entries_from(all.drop_first(), room)
    } else {
        seq![entry_of(all[0])] + entries_from(
            all.drop_first(),
            match room {
                Some(n) => Some((n - 1) as nat),
                None => None,
            },
        )
    }
}

/// The limit that `max_items` sets: none for 0.
pub open spec fn room_of(max_items: usize) -> Option<nat> {
    if max_items > 0 {
        Some(max_items as nat)
    } else {
        None
    }
}

/// The views of the entries.
pub open spec fn clip_views(entries: Seq<ClipEntry>) -> Seq<ClipView> {
    entries.map_values(|e: ClipEntry| e@)
}

fn entry_from_line(line: &Vec<char>) -> (r: ClipEntry)
    ensures
        r@ == entry_of(line@),
{
    let t = find_char(line, 0, '\t');
    proof {
        assert(line@.skip(0) == line@);
    }
    let (id, preview) = if t < line.len() {
        let head = slice_of(line, 0, t);
        let tail = slice_of(line, t + 1, line.len());
        proof {
            assert(line@.subrange(0, t as int) == line@.take(t as int));
            assert(line@.subrange(t + 1, line.len() as int) == line@.skip(t + 1));
        }
        (trimmed(&head), tail)
    } else {
        (line.clone(), line.clone())
    };
    let is_image = has_substring(&preview, &to_chars("[[ binary data"));
    ClipEntry {
        raw_line: from_chars(line),
        id: from_chars(&id),
        preview: from_chars(&preview),
        is_image,
        thumb_path: None,
    }
}

/// Reads the history listing: one entry for each line that is not empty,
/// in order, and no more than `max_items` of them unless `max_items` is 0.
/// Thumbnails are not looked for here.
pub fn parse_entries(listing: &str, max_items: usize) -> (r: Vec<ClipEntry>)
    ensures
        clip_views(r@) == entries_from(lines(listing@), room_of(max_items)),
{
    let chars = to_chars(listing);
    let all = text_lines(&chars);
    let mut out: Vec<ClipEntry> = Vec::new();
    let mut i: usize = 0;
    let ghost goal = entries_from(lines(listing@), room_of(max_items));
    proof {
        assert(views(all@).skip(0) == views(all@));
        assert(clip_views(out@) + goal == goal);
    }
    while i < all.len() && (max_items == 0 || out.len() < max_items)
        invariant
            i <= all.len(),
            views(all@) == lines(listing@),
            goal == entries_from(lines(listing@), room_of(max_items)),
            max_items > 0 ==> out.len() <= max_items,
            clip_views(out@) + entries_from(
                views(all@).skip(i as int),
                if max_items > 0 {
                    Some((max_items - out.len()) as nat)
                } else {
                    None
                },
            ) == goal,
        decreases all.len() - i,
    {
        let ghost rest = views(all@).skip(i as int);
        proof {
            assert(rest[0] == all@[i as int]@);
            assert(rest.drop_first() == views(all@).skip(i + 1));
        }
        if all[i].len() > 0 {
            let entry = entry_from_line(&all[i]);
            proof {
                let room: Option<nat> = if max_items > 0 {
                    Some((max_items - out.len() - 1) as nat)
                } else {
                    None
                };
                assert(clip_views(out@.push(entry)) == clip_views(out@).push(entry@));
                assert(clip_views(out@).push(entry@) + entries_from(rest.drop_first(), room)
                    == clip_views(out@) + (seq![entry@] + entries_from(rest.drop_first(), room)));
            }
            out.push(entry);
        }
        i += 1;
    }
    proof {
        let rest = views(all@).skip(i as int);
        let room: Option<nat> = if max_items > 0 {
            Some((max_items - out.len()) as nat)
        } else {
            None
        };
        assert(entries_from(rest, room) == Seq::<ClipView>::empty());
        assert(clip_views(out@) + Seq::<ClipView>::empty() == clip_views(out@));
    }
    out
}

/// The name of the thumbnail file of the entry with this id.
pub fn thumb_file(id: &str) -> (r: String)
    ensures
        r@ == id@ + ".png"@,
{
    let mut out = to_chars(id);
    append_chars(&mut out, &to_chars(".png"));
    from_chars(&out)
}

/// The media type under which an entry is copied.
pub fn mime_type(e: &ClipEntry) -> (r: &'static str)
    ensures
        r@ == if e.is_image {
            "image/png"@
        } else {
            "text/plain"@
        },
{
    if e.is_image {
        "image/png"
    } else {
        "text/plain"
    }
}

/// The notification for an entry that was copied: `Image copied` for an
/// image, else `Copied: ` and the preview, cut to 50 characters.
pub fn copy_notice(e: &ClipEntry) -> (r: String)
    ensures
        r@ == if e.is_image {
            "Image copied"@
        } else {
            "Copied: "@ + truncated(e.preview@, NOTICE_PREVIEW as int)
        },
{
    if e.is_image {
        from_chars(&to_chars("Image copied"))
    } else {
        let mut out = to_chars("Copied: ");
        let cut = char_truncate(e.preview.as_str(), NOTICE_PREVIEW);
        append_chars(&mut out, &to_chars(cut.as_str()));
        from_chars(&out)
    }
}

/// The text of the status bar: the number of entries shown.
pub fn status_line(count: usize) -> (r: String)
    ensures
        r@ == digits_of(count as nat) + " items"@,
{
    let mut out = decimal_digits(count as u64);
    append_chars(&mut out, &to_chars(" items"));
    from_chars(&out)
}

} // verus!
