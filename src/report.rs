//! The whole printed output of a search: header, emitted lines and notices.
use vstd::prelude::*;
use crate::scan::{
    emitted_spec, is_match, law_negative_limit, lemma_matched_positions, matched_lines, scan_lines,
    texts, Config,
};

verus! {

/// The quoted, escaped form that `{:?}` gives a string.
pub uninterp spec fn debug_quoted(s: Seq<char>) -> Seq<char>;

/// Relies on `<str as core::fmt::Debug>::fmt` (through `format!("{:?}")`):
/// the quoted form of `s`, which depends on its characters alone.
#[verifier::external_body]
fn quoted(s: &str) -> (r: String)
    ensures
        r@ == debug_quoted(s@),
{
    format!("{:?}", s)
}

/// The two header lines, given the quoted pattern and the quoted path.
pub open spec fn header_spec(pattern_shown: Seq<char>, path_shown: Seq<char>) -> Seq<Seq<char>> {
    seq!["pattern searched:"@ + pattern_shown, "file path:"@ + path_shown]
}

/// The notice printed when the file cannot be opened.
pub open spec fn file_not_found_text() -> Seq<char> {
    "File not found."@
}

/// The notice printed when no line matched.
pub open spec fn not_found_text() -> Seq<char> {
    "Not found."@
}

/// The closing lines: the "not found" notice when nothing matched.
pub open spec fn closing_spec(found: bool) -> Seq<Seq<char>> {
    if found {
        Seq::empty()
    } else {
        seq![not_found_text()]
    }
}

/// Whether a search over `source` (`None`: the file could not be opened)
/// finds a match.
pub open spec fn found_spec(cfg: Config, source: Option<Seq<Option<String>>>) -> bool {
    source is Some && matched_lines(cfg, source->Some_0).len() > 0
}

/// Every line a search prints, in order.
pub open spec fn report_spec(cfg: Config, source: Option<Seq<Option<String>>>) -> Seq<Seq<char>> {
    header_spec(debug_quoted(cfg.pattern@), debug_quoted(cfg.file_path@)) + (match source {
        Some(lines) => emitted_spec(cfg, lines),
        None => seq![file_not_found_text()],
    }) + closing_spec(found_spec(cfg, source))
}

/// The header lines from the pattern and the path as already quoted.
pub fn header_from_shown(pattern_shown: &str, path_shown: &str) -> (r: Vec<String>)
    ensures
        texts(r@) == header_spec(pattern_shown@, path_shown@),
{
    let mut first = String::from_str("pattern searched:");
    first.append(pattern_shown);
    let mut second = String::from_str("file path:");
    second.append(path_shown);
    let mut r: Vec<String> = Vec::new();
    r.push(first);
    r.push(second);
    assert(texts(r@) =~= header_spec(pattern_shown@, path_shown@));
    r
}

/// The header lines that echo the pattern and the file path.
pub fn header_lines(cfg: &Config) -> (r: Vec<String>)
    ensures
        texts(r@) == header_spec(debug_quoted(cfg.pattern@), debug_quoted(cfg.file_path@)),
{
    let p = quoted(cfg.pattern.as_str());
    let f = quoted(cfg.file_path.as_str());
    header_from_shown(p.as_str(), f.as_str())
}

/// The notice for a file that cannot be opened.
pub fn file_not_found_notice() -> (r: String)
    ensures
        r@ == file_not_found_text(),
{
    String::from_str("File not found.")
}

/// The line printed after the scan: the "not found" notice when nothing
/// matched, none otherwise.
pub fn closing_notice(found: bool) -> (r: Option<String>)
    ensures
        found ==> r is None,
        !found ==> r is Some && r->Some_0@ == not_found_text(),
{
    if found {
        None
    } else {
        Some(String::from_str("Not found."))
    }
}

/// Every line that a search prints, given the lines of the file, or `None`
/// where the file could not be opened.
pub fn report(cfg: &Config, source: &Option<Vec<Option<String>>>) -> (r: Vec<String>)
    requires
        source is Some ==> source->Some_0@.len() < u64::MAX,
    ensures
        texts(r@) == report_spec(
            *cfg,
            match source {
                Some(v) => Some(v@),
                None => None,
            },
        ),
{
    let ghost src = match source {
        Some(v) => Some(v@),
        None => None,
    };
    let mut out = header_lines(cfg);
    let ghost head = texts(out@);
    let found = match source {
        Some(lines) => {
            let outcome = scan_lines(cfg, lines);
            let mut emitted = outcome.emitted;
            out.append(&mut emitted);
            assert(texts(out@) =~= head + emitted_spec(*cfg, lines@));
            outcome.found
        },
        None => {
            out.push(file_not_found_notice());
            assert(texts(out@) =~= head + seq![file_not_found_text()]);
            false
        },
    };
    let ghost body = texts(out@);
    match closing_notice(found) {
        Some(n) => {
            out.push(n);
            assert(texts(out@) =~= body + closing_spec(found_spec(*cfg, src)));
        },
        None => {
            assert(texts(out@) =~= body + closing_spec(found_spec(*cfg, src)));
        },
    }
    out
}

/// When no line matches, a search prints the header and then the "not
/// found" notice, nothing else.
pub proof fn law_no_match_output(cfg: Config, lines: Seq<Option<String>>)
    requires
        forall|i: int| 0 <= i < lines.len() ==> !is_match(cfg, #[trigger] lines[i]),
    ensures
        !found_spec(cfg, Some(lines)),
        report_spec(cfg, Some(lines)) == header_spec(
            debug_quoted(cfg.pattern@),
            debug_quoted(cfg.file_path@),
        ) + seq![not_found_text()],
{
    lemma_matched_positions(cfg, lines, lines.len() as int);
    let ms = matched_lines(cfg, lines);
    if ms.len() > 0 {
        assert(is_match(cfg, lines[ms[0]]));
    }
    assert(emitted_spec(cfg, lines) =~= Seq::empty());
    assert(report_spec(cfg, Some(lines)) =~= header_spec(
        debug_quoted(cfg.pattern@),
        debug_quoted(cfg.file_path@),
    ) + seq![not_found_text()]);
}

/// When some line matches, the search finds a match and prints no "not
/// found" notice: its output is the header and the emitted lines.
pub proof fn law_match_found(cfg: Config, lines: Seq<Option<String>>)
    requires
        exists|i: int| 0 <= i < lines.len() && is_match(cfg, lines[i]),
    ensures
        found_spec(cfg, Some(lines)),
        report_spec(cfg, Some(lines)) == header_spec(
            debug_quoted(cfg.pattern@),
            debug_quoted(cfg.file_path@),
        ) + emitted_spec(cfg, lines),
{
    lemma_matched_positions(cfg, lines, lines.len() as int);
    let i = choose|i: int| 0 <= i < lines.len() && is_match(cfg, lines[i]);
    assert(matched_lines(cfg, lines).contains(i));
    assert(report_spec(cfg, Some(lines)) =~= header_spec(
        debug_quoted(cfg.pattern@),
        debug_quoted(cfg.file_path@),
    ) + emitted_spec(cfg, lines));
}

/// With a negative limit and a matching line, nothing but the header is
/// printed: no line and no "not found" notice.
pub proof fn law_negative_limit_output(cfg: Config, lines: Seq<Option<String>>)
    requires
        cfg.max_matches < 0,
        exists|i: int| 0 <= i < lines.len() && is_match(cfg, lines[i]),
    ensures
        found_spec(cfg, Some(lines)),
        report_spec(cfg, Some(lines)) == header_spec(
            debug_quoted(cfg.pattern@),
            debug_quoted(cfg.file_path@),
        ),
{
    law_negative_limit(cfg, lines);
    law_match_found(cfg, lines);
    assert(report_spec(cfg, Some(lines)) =~= header_spec(
        debug_quoted(cfg.pattern@),
        debug_quoted(cfg.file_path@),
    ));
}

/// A file that cannot be opened gives the header, the "file not found"
/// notice and then the "not found" notice.
pub proof fn law_missing_file(cfg: Config)
    ensures
        report_spec(cfg, None) == header_spec(
            debug_quoted(cfg.pattern@),
            debug_quoted(cfg.file_path@),
        ) + seq![file_not_found_text(), not_found_text()],
{
    assert(report_spec(cfg, None) =~= header_spec(
        debug_quoted(cfg.pattern@),
        debug_quoted(cfg.file_path@),
    ) + seq![file_not_found_text(), not_found_text()]);
}

} // verus!
