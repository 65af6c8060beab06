//! Export formatting: the plain-text, word-processor and Markdown
//! renderings of a finished transcript, and the greedy word wrap the
//! page-based rendering uses. All of them are pure functions of the
//! transcript; writing the result anywhere is the caller's business.

use crate::models::{Chapter, ExportFormat, Transcription};
use crate::text::{dec_digit, dec_of, digit_char, is_ws_char, push_char, u64_to_string};
use vstd::prelude::*;

verus! {

/// The creation time of a transcript rendered as UTC text.
pub uninterp spec fn utc_text_of(secs: u64) -> Seq<char>;

/// Relies on `chrono::DateTime::<Utc>::from_timestamp` and `format`
/// with `"%Y-%m-%d %H:%M:%S"`: the UTC date and time of a Unix
/// timestamp, a pure function of the timestamp (out-of-range
/// timestamps render as empty text).
#[verifier::external_body]
pub(crate) fn format_timestamp(secs: u64) -> (r: String)
    ensures
        r@ == utc_text_of(secs),
{
    match chrono::DateTime::<chrono::Utc>::from_timestamp(secs as i64, 0) {
        Some(d) => d.format("%Y-%m-%d %H:%M:%S").to_string(),
        None => String::new(),
    }
}

/// A chapter start time as seconds with one decimal, as the stamps in
/// exported documents read.
pub open spec fn start_stamp(ms: u64) -> Seq<char> {
    dec_of((ms / 1000) as nat) + seq!['.', dec_digit(((ms % 1000) / 100) as int)]
}

fn push_start_stamp(out: &mut String, ms: u64)
    ensures
        final(out)@ == old(out)@ + start_stamp(ms),
{
    let secs = u64_to_string(ms / 1000);
    out.append(secs.as_str());
    push_char(out, '.');
    push_char(out, digit_char((ms % 1000) / 100));
    proof {
        assert(out@ =~= old(out)@ + start_stamp(ms));
    }
}

/// One chapter as plain text.
pub open spec fn txt_chapter_block(c: Chapter, ts: bool) -> Seq<char> {
    "--- "@ + c.title@ + " ---\n"@ + (if ts {
        "Start: "@ + start_stamp(c.start_time_ms) + "s\n"@
    } else {
        Seq::empty()
    }) + c.content@ + "\n\n"@
}

pub open spec fn txt_chapter_blocks(cs: Seq<Chapter>, ts: bool) -> Seq<char>
    decreases cs.len(),
{
    if cs.len() == 0 {
        Seq::empty()
    } else {
        txt_chapter_blocks(cs.drop_last(), ts) + txt_chapter_block(cs.last(), ts)
    }
}

/// The whole plain-text rendering: header, then either the chapter
/// blocks (where asked for and present) or the raw text.
pub open spec fn spec_txt_export(t: Transcription, f: ExportFormat, date: Seq<char>) -> Seq<char> {
    t.title@ + "\n"@ + "Date: "@ + date + "\n"@ + "Duration: "@ + dec_of(t.duration as nat)
        + "s\n\n"@ + (if f.include_chapters && t.chapters@.len() > 0 {
        txt_chapter_blocks(t.chapters@, f.include_timestamps)
    } else {
        t.raw_text@
    })
}

/// Renders a transcript as plain text.
#[verifier::loop_isolation(false)]
pub fn export_to_txt(t: &Transcription, format: &ExportFormat) -> (r: String)
    ensures
        r@ == spec_txt_export(*t, *format, utc_text_of(t.created_at)),
{
    let mut out = String::new();
    out.append(t.title.as_str());
    out.append("\n");
    out.append("Date: ");
    let date = format_timestamp(t.created_at);
    out.append(date.as_str());
    out.append("\n");
    out.append("Duration: ");
    let dur = u64_to_string(t.duration);
    out.append(dur.as_str());
    out.append("s\n\n");
    if format.include_chapters && t.chapters.len() > 0 {
        let ghost head = out@;
        let mut i: usize = 0;
        while i < t.chapters.len()
            invariant
                i <= t.chapters@.len(),
                out@ == head + txt_chapter_blocks(t.chapters@.take(i as int),
                    format.include_timestamps),
            decreases t.chapters@.len() - i,
        {
            out.append("--- ");
            out.append(t.chapters[i].title.as_str());
            out.append(" ---\n");
            if format.include_timestamps {
                out.append("Start: ");
                push_start_stamp(&mut out, t.chapters[i].start_time_ms);
                out.append("s\n");
            }
            out.append(t.chapters[i].content.as_str());
            out.append("\n\n");
            proof {
                assert(t.chapters@.take(i + 1).drop_last() =~= t.chapters@.take(i as int));
                assert(t.chapters@.take(i + 1).last() == t.chapters@[i as int]);
                assert(out@ =~= head + txt_chapter_blocks(t.chapters@.take(i + 1),
                    format.include_timestamps));
            }
            i = i + 1;
        }
        proof {
            assert(t.chapters@.take(t.chapters@.len() as int) =~= t.chapters@);
            assert(out@ =~= spec_txt_export(*t, *format, utc_text_of(t.created_at)));
        }
    } else {
        out.append(t.raw_text.as_str());
        proof {
            assert(out@ =~= spec_txt_export(*t, *format, utc_text_of(t.created_at)));
        }
    }
    out
}

/// One chapter in the word-processor rendering.
pub open spec fn docx_chapter_block(c: Chapter, ts: bool) -> Seq<char> {
    "## "@ + c.title@ + "\n"@ + (if ts {
        "Start: "@ + start_stamp(c.start_time_ms) + "s\n"@
    } else {
        Seq::empty()
    }) + c.content@ + "\n\n"@
}

pub open spec fn docx_chapter_blocks(cs: Seq<Chapter>, ts: bool) -> Seq<char>
    decreases cs.len(),
{
    if cs.len() == 0 {
        Seq::empty()
    } else {
        docx_chapter_blocks(cs.drop_last(), ts) + docx_chapter_block(cs.last(), ts)
    }
}

/// The word-processor rendering (a structured-text stand-in).
pub open spec fn spec_docx_export(t: Transcription, f: ExportFormat, date: Seq<char>) -> Seq<
    char,
> {
    "# "@ + t.title@ + "\n\n"@ + "Date: "@ + date + "\n"@ + "Duration: "@ + dec_of(
        t.duration as nat,
    ) + "s\n\n"@ + (if f.include_chapters && t.chapters@.len() > 0 {
        docx_chapter_blocks(t.chapters@, f.include_timestamps)
    } else {
        t.raw_text@
    })
}

/// Renders a transcript for a word processor.
#[verifier::loop_isolation(false)]
pub fn export_to_docx(t: &Transcription, format: &ExportFormat) -> (r: String)
    ensures
        r@ == spec_docx_export(*t, *format, utc_text_of(t.created_at)),
{
    let mut out = String::new();
    out.append("# ");
    out.append(t.title.as_str());
    out.append("\n\n");
    out.append("Date: ");
    let date = format_timestamp(t.created_at);
    out.append(date.as_str());
    out.append("\n");
    out.append("Duration: ");
    let dur = u64_to_string(t.duration);
    out.append(dur.as_str());
    out.append("s\n\n");
    if format.include_chapters && t.chapters.len() > 0 {
        let ghost head = out@;
        let mut i: usize = 0;
        while i < t.chapters.len()
            invariant
                i <= t.chapters@.len(),
                out@ == head + docx_chapter_blocks(t.chapters@.take(i as int),
                    format.include_timestamps),
            decreases t.chapters@.len() - i,
        {
            out.append("## ");
            out.append(t.chapters[i].title.as_str());
            out.append("\n");
            if format.include_timestamps {
                out.append("Start: ");
                push_start_stamp(&mut out, t.chapters[i].start_time_ms);
                out.append("s\n");
            }
            out.append(t.chapters[i].content.as_str());
            out.append("\n\n");
            proof {
                assert(t.chapters@.take(i + 1).drop_last() =~= t.chapters@.take(i as int));
                assert(t.chapters@.take(i + 1).last() == t.chapters@[i as int]);
                assert(out@ =~= head + docx_chapter_blocks(t.chapters@.take(i + 1),
                    format.include_timestamps));
            }
            i = i + 1;
        }
        proof {
            assert(t.chapters@.take(t.chapters@.len() as int) =~= t.chapters@);
            assert(out@ =~= spec_docx_export(*t, *format, utc_text_of(t.created_at)));
        }
    } else {
        out.append(t.raw_text.as_str());
        proof {
            assert(out@ =~= spec_docx_export(*t, *format, utc_text_of(t.created_at)));
        }
    }
    out
}

/// One chapter in the Markdown rendering.
pub open spec fn md_chapter_block(c: Chapter, ts: bool) -> Seq<char> {
    "## "@ + c.title@ + "\n"@ + (if ts {
        "*Start: "@ + start_stamp(c.start_time_ms) + "s*\n\n"@
    } else {
        Seq::empty()
    }) + c.content@ + "\n\n"@
}

pub open spec fn md_chapter_blocks(cs: Seq<Chapter>, ts: bool) -> Seq<char>
    decreases cs.len(),
{
    if cs.len() == 0 {
        Seq::empty()
    } else {
        md_chapter_blocks(cs.drop_last(), ts) + md_chapter_block(cs.last(), ts)
    }
}

/// The Markdown rendering.
pub open spec fn spec_md_export(t: Transcription, f: ExportFormat, date: Seq<char>) -> Seq<char> {
    "# "@ + t.title@ + "\n\n"@ + "**Date:** "@ + date + "\n"@ + "**Duration:** "@ + dec_of(
        t.duration as nat,
    ) + "s\n\n"@ + (if f.include_chapters && t.chapters@.len() > 0 {
        md_chapter_blocks(t.chapters@, f.include_timestamps)
    } else {
        t.raw_text@
    })
}

/// Renders a transcript as Markdown.
#[verifier::loop_isolation(false)]
pub fn export_to_markdown(t: &Transcription, format: &ExportFormat) -> (r: String)
    ensures
        r@ == spec_md_export(*t, *format, utc_text_of(t.created_at)),
{
    let mut out = String::new();
    out.append("# ");
    out.append(t.title.as_str());
    out.append("\n\n");
    out.append("**Date:** ");
    let date = format_timestamp(t.created_at);
    out.append(date.as_str());
    out.append("\n");
    out.append("**Duration:** ");
    let dur = u64_to_string(t.duration);
    out.append(dur.as_str());
    out.append("s\n\n");
    if format.include_chapters && t.chapters.len() > 0 {
        let ghost head = out@;
        let mut i: usize = 0;
        while i < t.chapters.len()
            invariant
                i <= t.chapters@.len(),
                out@ == head + md_chapter_blocks(t.chapters@.take(i as int),
                    format.include_timestamps),
            decreases t.chapters@.len() - i,
        {
            out.append("## ");
            out.append(t.chapters[i].title.as_str());
            out.append("\n");
            if format.include_timestamps {
                out.append("*Start: ");
                push_start_stamp(&mut out, t.chapters[i].start_time_ms);
                out.append("s*\n\n");
            }
            out.append(t.chapters[i].content.as_str());
            out.append("\n\n");
            proof {
                assert(t.chapters@.take(i + 1).drop_last() =~= t.chapters@.take(i as int));
                assert(t.chapters@.take(i + 1).last() == t.chapters@[i as int]);
                assert(out@ =~= head + md_chapter_blocks(t.chapters@.take(i + 1),
                    format.include_timestamps));
            }
            i = i + 1;
        }
        proof {
            assert(t.chapters@.take(t.chapters@.len() as int) =~= t.chapters@);
            assert(out@ =~= spec_md_export(*t, *format, utc_text_of(t.created_at)));
        }
    } else {
        out.append(t.raw_text.as_str());
        proof {
            assert(out@ =~= spec_md_export(*t, *format, utc_text_of(t.created_at)));
        }
    }
    out
}

/// One past the last index of the word starting at `i` (the first
/// whitespace or end at or after `i`).
pub open spec fn word_end(s: Seq<char>, i: int) -> int
    decreases s.len() - i,
{
    if i < 0 || i >= s.len() || is_ws_char(s[i]) {
        i
    } else {
        word_end(s, i + 1)
    }
}

proof fn lemma_word_end_bounds(s: Seq<char>, i: int)
    requires
        0 <= i <= s.len(),
    ensures
        i <= word_end(s, i) <= s.len(),
    decreases s.len() - i,
{
    if i < s.len() && !is_ws_char(s[i]) {
        lemma_word_end_bounds(s, i + 1);
    }
}

proof fn lemma_word_end_at(s: Seq<char>, i: int, j: int)
    requires
        0 <= i <= j <= s.len(),
        forall|k: int| i <= k < j ==> !is_ws_char(#[trigger] s[k]),
        j < s.len() ==> is_ws_char(s[j]),
    ensures
        word_end(s, i) == j,
    decreases j - i,
{
    if i < j {
        lemma_word_end_at(s, i + 1, j);
    }
}

/// The whitespace-separated words of `s`, from position `i` on.
pub open spec fn ws_split_from(s: Seq<char>, i: int) -> Seq<Seq<char>>
    decreases s.len() - i,
    via ws_split_from_decreases
{
    if i < 0 || i >= s.len() {
        Seq::empty()
    } else if is_ws_char(s[i]) {
        ws_split_from(s, i + 1)
    } else {
        seq![s.subrange(i, word_end(s, i))] + ws_split_from(s, word_end(s, i))
    }
}

#[via_fn]
proof fn ws_split_from_decreases(s: Seq<char>, i: int) {
    if 0 <= i < s.len() && !is_ws_char(s[i]) {
        lemma_word_end_bounds(s, i + 1);
    }
}

/// The whitespace-separated words of `s`.
pub open spec fn words_of(s: Seq<char>) -> Seq<Seq<char>> {
    ws_split_from(s, 0)
}

/// Greedy wrapping: words are packed into `cur` while the line, one
/// space between words, stays within `width`; a word that would push a
/// non-empty line past `width` starts a new line. A single word longer
/// than `width` stands on a line of its own, over-long.
pub open spec fn greedy_acc(ws: Seq<Seq<char>>, width: int, cur: Seq<char>) -> Seq<Seq<char>>
    decreases ws.len(),
{
    if ws.len() == 0 {
        if cur.len() == 0 {
            Seq::empty()
        } else {
            seq![cur]
        }
    } else {
        let w = ws[0];
        if cur.len() + w.len() + 1 > width && cur.len() > 0 {
            seq![cur] + greedy_acc(ws.skip(1), width, w)
        } else {
            greedy_acc(
                ws.skip(1),
                width,
                if cur.len() == 0 {
                    w
                } else {
                    cur + " "@ + w
                },
            )
        }
    }
}

/// The lines of `s` wrapped at `width` characters.
pub open spec fn wrap_lines(s: Seq<char>, width: int) -> Seq<Seq<char>> {
    greedy_acc(words_of(s), width, Seq::empty())
}

fn ws_char(c: char) -> (r: bool)
    ensures
        r == is_ws_char(c),
{
    c == ' ' || c == '\t' || c == '\n' || c == '\r'
}

/// Splits `s` into its whitespace-separated words.
#[verifier::loop_isolation(false)]
fn split_words(s: &str) -> (r: Vec<String>)
    ensures
        r@.map_values(|w: String| w@) == words_of(s@),
{
    let n = s.unicode_len();
    let mut words: Vec<String> = Vec::new();
    proof {
        assert(words@.map_values(|w: String| w@) =~= Seq::<Seq<char>>::empty());
        assert(Seq::<Seq<char>>::empty() + ws_split_from(s@, 0) =~= ws_split_from(s@, 0));
    }
    let mut i: usize = 0;
    while i < n
        invariant
            i <= n,
            n == s@.len(),
            words_of(s@) == words@.map_values(|w: String| w@) + ws_split_from(s@, i as int),
        decreases n - i,
    {
        let c = s.get_char(i);
        if ws_char(c) {
            i = i + 1;
        } else {
            let mut j = i;
            let mut w = String::new();
            proof {
                assert(w@ =~= s@.subrange(i as int, i as int));
            }
            while j < n && !ws_char(s.get_char(j))
                invariant
                    i <= j <= n,
                    n == s@.len(),
                    w@ == s@.subrange(i as int, j as int),
                    forall|k: int| i <= k < j ==> !is_ws_char(#[trigger] s@[k]),
                decreases n - j,
            {
                push_char(&mut w, s.get_char(j));
                proof {
                    assert(w@ =~= s@.subrange(i as int, j + 1));
                }
                j = j + 1;
            }
            proof {
                lemma_word_end_at(s@, i as int, j as int);
                let ghost wviews = words@.map_values(|w0: String| w0@);
                assert(words@.push(w).map_values(|w0: String| w0@) =~= wviews + seq![w@]);
                assert((wviews + seq![w@]) + ws_split_from(s@, j as int) =~= wviews + (seq![
                    s@.subrange(i as int, j as int),
                ] + ws_split_from(s@, j as int)));
            }
            words.push(w);
            i = j;
        }
    }
    words
}

/// Wraps `text` into lines of at most `width` characters, words kept
/// whole (a single word longer than `width` stays on its own line).
#[verifier::loop_isolation(false)]
pub fn wrap_text(text: &str, width: usize) -> (r: Vec<String>)
    ensures
        r@.map_values(|l: String| l@) == wrap_lines(text@, width as int),
{
    let words = split_words(text);
    let mut lines: Vec<String> = Vec::new();
    let mut cur = String::new();
    proof {
        assert(words@.map_values(|w: String| w@).skip(0) =~= words@.map_values(|w: String| w@));
        assert(lines@.map_values(|l: String| l@) =~= Seq::<Seq<char>>::empty());
        assert(Seq::<Seq<char>>::empty() + wrap_lines(text@, width as int) =~= wrap_lines(
            text@,
            width as int,
        ));
    }
    let mut k: usize = 0;
    while k < words.len()
        invariant
            k <= words@.len(),
            wrap_lines(text@, width as int) == lines@.map_values(|l: String| l@) + greedy_acc(
                words@.map_values(|w: String| w@).skip(k as int),
                width as int,
                cur@,
            ),
        decreases words@.len() - k,
    {
        let ghost gws = words@.map_values(|w: String| w@).skip(k as int);
        let ghost cur0 = cur@;
        let ghost lines0 = lines@.map_values(|l: String| l@);
        let w_len = words[k].as_str().unicode_len();
        let cur_len = cur.as_str().unicode_len();
        proof {
            assert(gws[0] == words@[k as int]@);
            assert(gws.skip(1) =~= words@.map_values(|w0: String| w0@).skip(k + 1));
        }
        if (cur_len as u128) + (w_len as u128) + 1 > (width as u128) && cur_len > 0 {
            lines.push(cur);
            cur = words[k].clone();
            proof {
                assert(lines@.map_values(|l: String| l@) =~= lines0 + seq![cur0]);
                assert((lines0 + seq![cur0]) + greedy_acc(gws.skip(1), width as int, cur@)
                    =~= lines0 + (seq![cur0] + greedy_acc(gws.skip(1), width as int, cur@)));
            }
        } else {
            if cur_len == 0 {
                cur = words[k].clone();
            } else {
                cur = cur.concat(" ").concat(words[k].as_str());
            }
        }
        k = k + 1;
    }
    proof {
        assert(words@.map_values(|w: String| w@).skip(words@.len() as int)
            =~= Seq::<Seq<char>>::empty());
    }
    if !cur.as_str().is_empty() {
        let ghost lines0 = lines@.map_values(|l: String| l@);
        let ghost cur0 = cur@;
        lines.push(cur);
        proof {
            assert(lines@.map_values(|l: String| l@) =~= lines0 + seq![cur0]);
        }
    }
    lines
}

} // verus!
