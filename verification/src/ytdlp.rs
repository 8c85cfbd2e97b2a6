//! Fetching a video with the `yt-dlp` tool: how to invoke it and how to
//! read the title out of what it prints.

use vstd::prelude::*;
use vstd::string::*;
use crate::text::{
    chars_of, find, find_spec, lemma_find_bounds, lemma_find_first_occurrence, matches_at,
    push_text, texts,
};

verus! {

/// Downloads one video per request.
pub struct YoutubeDownloader {}

/// Why a download did not yield a file.
#[derive(Clone, Copy, Debug, PartialEq, Eq, Structural)]
pub enum DownloadError {
    /// The tool exited with a failure status.
    ToolFailed,
}

/// The command line, after the program name, that downloads `url` to
/// `output`; `cookies` names a cookie file to use, if any.
pub open spec fn arguments_spec(
    output: Seq<char>,
    cookies: Option<Seq<char>>,
    url: Seq<char>,
) -> Seq<Seq<char>> {
    seq![
        "-o"@,
        output,
        "--recode-video"@,
        "mp4"@,
        "--force-overwrite"@,
        "--no-playlist"@,
        "-I"@,
        "1:1"@,
        "--max-downloads"@,
        "4"@,
        "--no-simulate"@,
        "--progress"@,
        "--print"@,
        "VIDEOTITLE((![[%(title)s]]!))"@,
    ] + match cookies {
        Some(file) => seq!["--cookies"@, file],
        None => Seq::empty(),
    } + seq!["--no-quiet"@, url]
}

/// The title that a printed line announces: for a line that starts with
/// `VIDEOTITLE`, what stands behind the first `((![[`, up to the next
/// `((![[` and the first `]]!))` before that.
pub open spec fn title_spec(line: Seq<char>) -> Option<Seq<char>> {
    let opening = find_spec(line, "((![["@);
    if !"VIDEOTITLE"@.is_prefix_of(line) || opening == line.len() {
        None
    } else {
        let after = line.skip(opening + "((![["@.len());
        let segment = after.take(find_spec(after, "((![["@));
        Some(segment.take(find_spec(segment, "]]!))"@)))
    }
}

/// The title known after one more line: the one the line announces, or
/// else the one known before.
pub open spec fn observe_spec(title: Option<Seq<char>>, line: Seq<char>) -> Option<Seq<char>> {
    match title_spec(line) {
        Some(found) => Some(found),
        None => title,
    }
}

/// The name of a finished download: the announced title, or the address
/// where none was announced; a failed tool yields no name.
pub open spec fn finish_spec(success: bool, title: Option<Seq<char>>, url: Seq<char>) -> Result<
    Seq<char>,
    DownloadError,
> {
    if !success {
        Err(DownloadError::ToolFailed)
    } else {
        match title {
            Some(found) => Ok(found),
            None => Ok(url),
        }
    }
}

/// The text of an optional string.
pub open spec fn optional_text(s: Option<String>) -> Option<Seq<char>> {
    match s {
        Some(text) => Some(text@),
        None => None,
    }
}

impl YoutubeDownloader {
    /// Builds the tool's command line.
    pub fn arguments(&self, output: &str, cookies: Option<&str>, url: &str) -> (r: Vec<String>)
        ensures
            texts(r@) == arguments_spec(
                output@,
                match cookies {
                    Some(file) => Some(file@),
                    None => None,
                },
                url@,
            ),
    {
        let mut r: Vec<String> = Vec::new();
        assert(texts(r@) =~= Seq::<Seq<char>>::empty());
        push_text(&mut r, "-o");
        push_text(&mut r, output);
        push_text(&mut r, "--recode-video");
        push_text(&mut r, "mp4");
        push_text(&mut r, "--force-overwrite");
        push_text(&mut r, "--no-playlist");
        push_text(&mut r, "-I");
        push_text(&mut r, "1:1");
        push_text(&mut r, "--max-downloads");
        push_text(&mut r, "4");
        push_text(&mut r, "--no-simulate");
        push_text(&mut r, "--progress");
        push_text(&mut r, "--print");
        push_text(&mut r, "VIDEOTITLE((![[%(title)s]]!))");
        if let Some(file) = cookies {
            push_text(&mut r, "--cookies");
            push_text(&mut r, file);
        }
        push_text(&mut r, "--no-quiet");
        push_text(&mut r, url);
        assert(texts(r@) =~= arguments_spec(
            output@,
            match cookies {
                Some(file) => Some(file@),
                None => None,
            },
            url@,
        ));
        r
    }

    /// Reads the title out of one printed line, if the line announces one.
    pub fn title_of(line: &str) -> (r: Option<String>)
        ensures
            optional_text(r) == title_spec(line@),
    {
        let chars = chars_of(line);
        let n: usize = chars.len();
        let marker = chars_of("VIDEOTITLE");
        let opener = chars_of("((![[");
        let closer = chars_of("]]!))");
        proof {
            reveal_strlit("((![[");
            assert(chars@.subrange(0, n as int) == chars@);
            lemma_find_bounds(chars@, opener@);
        }
        if !matches_at(&chars, 0, n, &marker) {
            return None;
        }
        let opening = find(&chars, 0, n, &opener);
        if opening == n {
            return None;
        }
        assert(opener@.len() == 5);
        assert(chars@.skip(opening as int).len() >= 5);
        let start: usize = opening + 5;
        let ghost after = chars@.skip(start as int);
        assert(chars@.subrange(start as int, n as int) == after);
        let next = find(&chars, start, n, &opener);
        let ghost segment = after.take(next - start);
        assert(chars@.subrange(start as int, next as int) == segment);
        let end = find(&chars, start, next, &closer);
        assert(line@.subrange(start as int, end as int) == segment.take(end - start));
        Some(line.substring_char(start, end).to_owned())
    }

    /// Takes one more printed line into account.
    pub fn observe(title: Option<String>, line: &str) -> (r: Option<String>)
        ensures
            optional_text(r) == observe_spec(optional_text(title), line@),
    {
        match Self::title_of(line) {
            Some(found) => Some(found),
            None => title,
        }
    }

    /// Names the download once the tool has exited.
    pub fn finish(success: bool, title: Option<String>, url: String) -> (r: Result<
        String,
        DownloadError,
    >)
        ensures
            match r {
                Ok(name) => finish_spec(success, optional_text(title), url@) == Ok::<
                    Seq<char>,
                    DownloadError,
                >(name@),
                Err(e) => finish_spec(success, optional_text(title), url@) == Err::<
                    Seq<char>,
                    DownloadError,
                >(e),
            },
    {
        if !success {
            return Err(DownloadError::ToolFailed);
        }
        match title {
            Some(found) => Ok(found),
            None => Ok(url),
        }
    }
}

/// The line that announces `title`, as the tool prints it.
pub open spec fn announcement(title: Seq<char>) -> Seq<char> {
    "VIDEOTITLE"@ + "((![["@ + title + "]]!))"@
}

/// A title reads back from the line that announces it, provided the
/// opening marker does not occur in the title followed by the closing
/// marker, and the closing marker occurs there at the very end only.
pub proof fn lemma_announced_title_reads_back(title: Seq<char>)
    requires
        find_spec(title + "]]!))"@, "((![["@) == (title + "]]!))"@).len(),
        find_spec(title + "]]!))"@, "]]!))"@) == title.len(),
    ensures
        title_spec(announcement(title)) == Some(title),
{
    reveal_strlit("VIDEOTITLE");
    reveal_strlit("((![[");
    let marker = "VIDEOTITLE"@;
    let opener = "((![["@;
    let closer = "]]!))"@;
    let line = announcement(title);
    let after = title + closer;
    assert(marker.len() == 10);
    assert(opener.len() == 5);
    assert(line.subrange(0, 10) == marker);
    assert(line.skip(10).subrange(0, 5) == opener);
    assert forall|i: int| 0 <= i < 10 implies line[i] != opener[0] by {
        assert(line[i] == marker[i]);
    }
    lemma_find_first_occurrence(line, opener, 10);
    assert(line.skip(15) == after);
    assert(after.take(after.len() as int) == after);
    assert(after.take(title.len() as int) == title);
}

} // verus!
