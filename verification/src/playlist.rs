//! The text of local playlist files.
//!
//! A flat playlist is an M3U file: the line `#EXTM3U`, then for each track a
//! line `#EXTINF:-1,` with the file's name and a line with its path as seen
//! from the playlist's folder. A linked playlist holds one line for the
//! playlist of each folder right below.
use crate::models::texts;
use crate::paths::{file_name, file_name_of, join, joined};
use crate::text::{
    append_text, chars_of, has_prefix, pieces, slice_of, split_char, starts_with, string_of,
    text_views, trim, trimmed,
};
use crate::util::{expand_chars, expanded};
use vstd::prelude::*;

verus! {

/// The path `path` as seen from the folder `base`, computed by
/// `pathdiff::diff_paths`; `None` where that function finds none. How paths
/// are read depends on the platform, so nothing is claimed of the result.
#[verifier::external_body]
fn diff_paths(path: &str, base: &str) -> (r: Option<String>) {
    pathdiff::diff_paths(path, base).map(|p| p.display().to_string())
}

/// One track of a flat playlist.
#[derive(Debug, Clone, PartialEq, Eq)]
pub struct Entry {
    pub title: String,
    pub path: String,
}

/// Entries as contracts see them: title, then path.
pub open spec fn entry_views(v: Seq<Entry>) -> Seq<(Seq<char>, Seq<char>)> {
    v.map_values(|e: Entry| (e.title@, e.path@))
}

/// The two lines of one track.
pub open spec fn entry_text(e: (Seq<char>, Seq<char>)) -> Seq<char> {
    "#EXTINF:-1,"@ + e.0 + seq!['\n'] + e.1 + seq!['\n']
}

/// The lines of the tracks, one track after the other.
pub open spec fn entries_text(entries: Seq<(Seq<char>, Seq<char>)>) -> Seq<char>
    decreases entries.len(),
{
    if entries.len() == 0 {
        Seq::empty()
    } else {
        entries_text(entries.drop_last()) + entry_text(entries.last())
    }
}

/// The text of a flat playlist.
pub open spec fn flat_text(entries: Seq<(Seq<char>, Seq<char>)>) -> Seq<char> {
    "#EXTM3U\n"@ + entries_text(entries)
}

/// The entry of a track: its title is the file's name; its path is the
/// relative path where there is one, else the file's own path.
pub open spec fn entry_of(file: Seq<char>, relative: Option<Seq<char>>) -> (Seq<char>, Seq<char>) {
    (
        file_name_of(file),
        match relative {
            Some(r) => r,
            None => file,
        },
    )
}

/// The entries of the files, given the relative path of each.
pub open spec fn entries_of(files: Seq<Seq<char>>, relatives: Seq<Option<Seq<char>>>) -> Seq<
    (Seq<char>, Seq<char>),
> {
    Seq::new(files.len(), |i: int| entry_of(files[i], relatives[i]))
}

/// Makes the entry of a track from its path and its relative path.
pub fn flat_entry(file: &str, relative: Option<String>) -> (e: Entry)
    ensures
        (e.title@, e.path@) == entry_of(file@, crate::models::opt_text(relative)),
{
    let title = string_of(&file_name(&chars_of(file)));
    let path = match relative {
        Some(r) => r,
        None => String::from_str(file),
    };
    Entry { title, path }
}

/// Writes out the text of a flat playlist.
pub fn render_flat(entries: &Vec<Entry>) -> (r: String)
    ensures
        r@ == flat_text(entry_views(entries@)),
{
    let ghost es = entry_views(entries@);
    let mut out = chars_of("#EXTM3U\n");
    let mut i: usize = 0;
    let mut newline: Vec<char> = Vec::new();
    newline.push('\n');
    assert(newline@ =~= seq!['\n']);
    assert(es.take(0) =~= Seq::<(Seq<char>, Seq<char>)>::empty());
    assert(out@ =~= "#EXTM3U\n"@ + entries_text(es.take(0)));
    while i < entries.len()
        invariant
            i <= entries.len(),
            es == entry_views(entries@),
            newline@ == seq!['\n'],
            out@ == "#EXTM3U\n"@ + entries_text(es.take(i as int)),
        decreases entries.len() - i,
    {
        let ghost before = out@;
        proof {
            assert(es.take(i + 1).drop_last() =~= es.take(i as int));
            assert(es.take(i + 1).last() == (entries@[i as int].title@, entries@[i as int].path@));
        }
        append_text(&mut out, &chars_of("#EXTINF:-1,"));
        append_text(&mut out, &chars_of(entries[i].title.as_str()));
        append_text(&mut out, &newline);
        append_text(&mut out, &chars_of(entries[i].path.as_str()));
        append_text(&mut out, &newline);
        assert(out@ =~= before + entry_text(es[i as int]));
        assert(out@ =~= "#EXTM3U\n"@ + (entries_text(es.take(i as int)) + entry_text(es[i as int])));
        i += 1;
    }
    assert(es.take(entries.len() as int) =~= es);
    string_of(&out)
}

/// The text of the flat playlist of `target_folder` for the given files, in
/// their order. Each path is written as seen from the folder, where such a
/// path is found, else as it is.
pub fn flat_playlist_text(target_folder: &str, files: &Vec<String>) -> (r: String)
    ensures
        exists|relatives: Seq<Option<Seq<char>>>|
            relatives.len() == files.len() && r@ == flat_text(
                #[trigger] entries_of(texts(files@), relatives),
            ),
{
    let mut entries: Vec<Entry> = Vec::new();
    let ghost mut relatives: Seq<Option<Seq<char>>> = Seq::empty();
    let mut i: usize = 0;
    while i < files.len()
        invariant
            i <= files.len(),
            relatives.len() == i,
            entries@.len() == i,
            forall|j: int|
                0 <= j < i ==> (#[trigger] entries@[j].title@, entries@[j].path@) == entry_of(
                    files@[j]@,
                    relatives[j],
                ),
        decreases files.len() - i,
    {
        let rel = diff_paths(files[i].as_str(), target_folder);
        proof {
            relatives = relatives.push(crate::models::opt_text(rel));
        }
        entries.push(flat_entry(files[i].as_str(), rel));
        i += 1;
    }
    assert(entry_views(entries@) =~= entries_of(texts(files@), relatives));
    render_flat(&entries)
}

/// The lines, each followed by a line break.
pub open spec fn lines_text(lines: Seq<Seq<char>>) -> Seq<char>
    decreases lines.len(),
{
    if lines.len() == 0 {
        Seq::empty()
    } else {
        lines_text(lines.drop_last()) + lines.last() + seq!['\n']
    }
}

/// Writes out lines, each followed by a line break.
pub fn render_lines(lines: &Vec<String>) -> (r: String)
    ensures
        r@ == lines_text(texts(lines@)),
{
    let ghost ls = texts(lines@);
    let mut out: Vec<char> = Vec::new();
    let mut newline: Vec<char> = Vec::new();
    newline.push('\n');
    assert(newline@ =~= seq!['\n']);
    let mut i: usize = 0;
    assert(ls.take(0) =~= Seq::<Seq<char>>::empty());
    while i < lines.len()
        invariant
            i <= lines.len(),
            ls == texts(lines@),
            newline@ == seq!['\n'],
            out@ == lines_text(ls.take(i as int)),
        decreases lines.len() - i,
    {
        proof {
            assert(ls.take(i + 1).drop_last() =~= ls.take(i as int));
            assert(ls.take(i + 1).last() == lines@[i as int]@);
        }
        append_text(&mut out, &chars_of(lines[i].as_str()));
        append_text(&mut out, &newline);
        i += 1;
    }
    assert(ls.take(lines.len() as int) =~= ls);
    string_of(&out)
}

/// The path of the playlist file of the folder `child`, named after the
/// template with the folder's name and an empty path to the parent.
pub open spec fn child_playlist_path(child: Seq<char>, template: Seq<char>) -> Seq<char> {
    joined(child, expanded(template, file_name_of(child), Seq::empty()))
}

/// The line that stands for the folder `child` in a linked playlist: the path
/// of the child's playlist file, as it is where the format is `absolute` or
/// no relative path is given, else the relative path.
pub open spec fn linked_line(
    child: Seq<char>,
    format: Seq<char>,
    template: Seq<char>,
    relative: Option<Seq<char>>,
) -> Seq<char> {
    if format == "absolute"@ {
        child_playlist_path(child, template)
    } else {
        match relative {
            Some(r) => r,
            None => child_playlist_path(child, template),
        }
    }
}

/// The lines of a linked playlist, given the relative path of the playlist
/// file of each folder.
pub open spec fn linked_lines(
    children: Seq<Seq<char>>,
    format: Seq<char>,
    template: Seq<char>,
    relatives: Seq<Option<Seq<char>>>,
) -> Seq<Seq<char>> {
    Seq::new(children.len(), |i: int| linked_line(children[i], format, template, relatives[i]))
}

/// Gives the path of the playlist file of the folder `child`.
pub fn child_playlist(child: &str, template: &str) -> (r: String)
    ensures
        r@ == child_playlist_path(child@, template@),
{
    let c = chars_of(child);
    let name = expand_chars(&chars_of(template), &file_name(&c), &Vec::new());
    string_of(&join(&c, &name))
}

/// Gives the line that stands for the folder `child` in a linked playlist.
pub fn make_linked_line(child: &str, format: &str, template: &str, relative: Option<String>) -> (r:
    String)
    ensures
        r@ == linked_line(child@, format@, template@, crate::models::opt_text(relative)),
{
    if crate::text::same_str(format, "absolute") {
        child_playlist(child, template)
    } else {
        match relative {
            Some(r) => r,
            None => child_playlist(child, template),
        }
    }
}

/// The text of the linked playlist of `target_folder`, given the folders
/// right below it, in their order.
pub fn linked_playlist_text(
    target_folder: &str,
    children: &Vec<String>,
    linked_reference_format: &str,
    local_playlist_template: &str,
) -> (r: String)
    ensures
        exists|relatives: Seq<Option<Seq<char>>>|
            relatives.len() == children.len() && r@ == lines_text(
                #[trigger] linked_lines(
                    texts(children@),
                    linked_reference_format@,
                    local_playlist_template@,
                    relatives,
                ),
            ),
{
    let mut lines: Vec<String> = Vec::new();
    let ghost mut relatives: Seq<Option<Seq<char>>> = Seq::empty();
    let mut i: usize = 0;
    while i < children.len()
        invariant
            i <= children.len(),
            relatives.len() == i,
            lines@.len() == i,
            forall|j: int|
                0 <= j < i ==> (#[trigger] lines@[j])@ == linked_line(
                    children@[j]@,
                    linked_reference_format@,
                    local_playlist_template@,
                    relatives[j],
                ),
        decreases children.len() - i,
    {
        let path = child_playlist(children[i].as_str(), local_playlist_template);
        let rel = diff_paths(path.as_str(), target_folder);
        proof {
            relatives = relatives.push(crate::models::opt_text(rel));
        }
        lines.push(
            make_linked_line(
                children[i].as_str(),
                linked_reference_format,
                local_playlist_template,
                rel,
            ),
        );
        i += 1;
    }
    assert(texts(lines@) =~= linked_lines(
        texts(children@),
        linked_reference_format@,
        local_playlist_template@,
        relatives,
    ));
    render_lines(&lines)
}

/// A line without a carriage return at its end.
pub open spec fn bare_line(line: Seq<char>) -> Seq<char> {
    if line.len() > 0 && line.last() == '\r' {
        line.drop_last()
    } else {
        line
    }
}

/// Whether a line of a playlist names a track: it is not a comment, which
/// begins with `#`, and it is not blank.
pub open spec fn names_track(line: Seq<char>) -> bool {
    !has_prefix(line, seq!['#']) && trimmed(line).len() > 0
}

/// The paths of the tracks that the lines name, each as joined to `folder`.
pub open spec fn tracks_of_lines(lines: Seq<Seq<char>>, folder: Seq<char>) -> Seq<Seq<char>>
    decreases lines.len(),
{
    if lines.len() == 0 {
        Seq::empty()
    } else {
        let line = bare_line(lines.last());
        if names_track(line) {
            tracks_of_lines(lines.drop_last(), folder).push(joined(folder, line))
        } else {
            tracks_of_lines(lines.drop_last(), folder)
        }
    }
}

/// The paths of the tracks that a playlist's text lists, in order.
pub open spec fn listed_tracks(text: Seq<char>, folder: Seq<char>) -> Seq<Seq<char>> {
    tracks_of_lines(pieces(text, '\n'), folder)
}

/// Reads the paths of the tracks that the text of a playlist lists; the
/// playlist lies in `folder`.
pub fn playlist_entries(text: &str, folder: &str) -> (r: Vec<String>)
    ensures
        texts(r@) == listed_tracks(text@, folder@),
{
    let lines = split_char(&chars_of(text), '\n');
    let dir = chars_of(folder);
    let ghost ls = pieces(text@, '\n');
    let mut hash: Vec<char> = Vec::new();
    hash.push('#');
    assert(hash@ =~= seq!['#']);
    let mut r: Vec<String> = Vec::new();
    let mut i: usize = 0;
    assert(ls.take(0) =~= Seq::<Seq<char>>::empty());
    assert(texts(r@) =~= tracks_of_lines(ls.take(0), folder@));
    while i < lines.len()
        invariant
            i <= lines.len(),
            ls == text_views(lines@),
            dir@ == folder@,
            hash@ == seq!['#'],
            texts(r@) == tracks_of_lines(ls.take(i as int), folder@),
        decreases lines.len() - i,
    {
        proof {
            assert(ls.take(i + 1).drop_last() =~= ls.take(i as int));
            assert(ls.take(i + 1).last() == lines@[i as int]@);
        }
        let raw = &lines[i];
        let line = if raw.len() > 0 && raw[raw.len() - 1] == '\r' {
            let l = slice_of(raw, 0, raw.len() - 1);
            assert(l@ =~= raw@.drop_last());
            l
        } else {
            let l = slice_of(raw, 0, raw.len());
            assert(l@ =~= raw@);
            l
        };
        if !starts_with(&line, &hash) && trim(&line).len() > 0 {
            let ghost before = texts(r@);
            let p = string_of(&join(&dir, &line));
            r.push(p);
            assert(texts(r@) =~= before.push(joined(folder@, line@)));
        }
        i += 1;
    }
    assert(ls.take(lines.len() as int) =~= ls);
    r
}

} // verus!
