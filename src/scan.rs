//! The line scanner: which lines match, which of them are emitted, and
//! where the match limit stops the scan.
use vstd::prelude::*;
use crate::render::{decimal, render_line, render_match};
use crate::text::{line_matches, line_matches_spec};

verus! {

/// What one search is asked to do.
pub struct Config {
    pub file_path: String,
    pub pattern: String,
    pub show_line_number: bool,
    pub case_insensitive: bool,
    /// `0`: no limit; negative: stop at the first match and emit nothing;
    /// positive: emit that many matches and stop at the next one.
    pub max_matches: i32,
}

/// Whether the line read at some position matches; a line that could not be
/// decoded (`None`) never does.
pub open spec fn is_match(cfg: Config, line: Option<String>) -> bool {
    line is Some && line_matches_spec(line->Some_0@, cfg.pattern@, cfg.case_insensitive)
}

/// The positions (0-based) of the matching lines among the first `n`, in
/// increasing order.
pub open spec fn matched_upto(cfg: Config, lines: Seq<Option<String>>, n: int) -> Seq<int>
    decreases n,
{
    if n <= 0 {
        Seq::empty()
    } else if is_match(cfg, lines[n - 1]) {
        matched_upto(cfg, lines, n - 1).push(n - 1)
    } else {
        matched_upto(cfg, lines, n - 1)
    }
}

/// The positions of all matching lines.
pub open spec fn matched_lines(cfg: Config, lines: Seq<Option<String>>) -> Seq<int> {
    matched_upto(cfg, lines, lines.len() as int)
}

/// Whether the limit forbids emitting a match after `emitted` matches were
/// emitted.
pub open spec fn limit_reached(max_matches: i32, emitted: nat) -> bool {
    max_matches < 0 || (max_matches > 0 && emitted >= max_matches)
}

/// How many of `total` matches are emitted.
pub open spec fn emit_count(max_matches: i32, total: nat) -> nat {
    if max_matches == 0 {
        total
    } else if max_matches < 0 {
        0
    } else if total <= max_matches {
        total
    } else {
        max_matches as nat
    }
}

/// Whether a scan over `total` matches stops at a match before the lines run
/// out.
pub open spec fn halts(max_matches: i32, total: nat) -> bool {
    max_matches != 0 && total > emit_count(max_matches, total)
}

/// The text emitted for the matching line at position `i`.
pub open spec fn emitted_line(cfg: Config, lines: Seq<Option<String>>, i: int) -> Seq<char> {
    render_line(cfg.show_line_number, (i + 1) as nat, lines[i]->Some_0@)
}

/// The lines emitted by a whole scan: the first matches, as many as the limit
/// allows, each rendered with its 1-based line number.
pub open spec fn emitted_spec(cfg: Config, lines: Seq<Option<String>>) -> Seq<Seq<char>> {
    let ms = matched_lines(cfg, lines);
    ms.take(emit_count(cfg.max_matches, ms.len()) as int).map_values(
        |i: int| emitted_line(cfg, lines, i),
    )
}

/// How many lines a whole scan reads: up to and including the match at
/// which it stops, or all of them.
pub open spec fn lines_read_spec(cfg: Config, lines: Seq<Option<String>>) -> nat {
    let ms = matched_lines(cfg, lines);
    if halts(cfg.max_matches, ms.len()) {
        (ms[emit_count(cfg.max_matches, ms.len()) as int] + 1) as nat
    } else {
        lines.len()
    }
}

/// The texts of a sequence of strings.
pub open spec fn texts(v: Seq<String>) -> Seq<Seq<char>> {
    v.map_values(|s: String| s@)
}

/// The counters of a scan in progress.
pub struct ScanState {
    /// Lines read so far, decoded or not.
    pub line_number: u64,
    /// Matches emitted so far.
    pub matches_emitted: u64,
    /// Whether a match was seen, emitted or not.
    pub found: bool,
}

/// What to do with the line just read.
pub enum Step {
    /// Not a match: nothing to print.
    Skip,
    /// A match to print, as given.
    Emit(String),
    /// A match that the limit holds back: stop reading.
    Halt,
}

impl ScanState {
    pub open spec fn wf(&self) -> bool {
        self.matches_emitted <= self.line_number
    }

    /// The state before the first line.
    pub fn new() -> (r: ScanState)
        ensures
            r.line_number == 0,
            r.matches_emitted == 0,
            !r.found,
            r.wf(),
    {
        ScanState { line_number: 0, matches_emitted: 0, found: false }
    }

    /// Takes the next line (`None` for one that could not be decoded) and
    /// says what to do with it.
    pub fn step(&mut self, cfg: &Config, line: Option<&str>) -> (r: Step)
        requires
            old(self).wf(),
            old(self).line_number < u64::MAX,
        ensures
            final(self).wf(),
            final(self).line_number == old(self).line_number + 1,
            ({
                let m = line is Some && line_matches_spec(
                    line->Some_0@,
                    cfg.pattern@,
                    cfg.case_insensitive,
                );
                &&& final(self).found == (old(self).found || m)
                &&& !m ==> r is Skip && final(self).matches_emitted == old(self).matches_emitted
                &&& m && limit_reached(cfg.max_matches, old(self).matches_emitted as nat) ==> r is Halt
                    && final(self).matches_emitted == old(self).matches_emitted
                &&& m && !limit_reached(cfg.max_matches, old(self).matches_emitted as nat) ==> r is Emit
                    && r->Emit_0@ == render_line(
                    cfg.show_line_number,
                    final(self).line_number as nat,
                    line->Some_0@,
                ) && final(self).matches_emitted == old(self).matches_emitted + 1
            }),
    {
        self.line_number = self.line_number + 1;
        match line {
            None => Step::Skip,
            Some(text) => {
                if !line_matches(text, cfg.pattern.as_str(), cfg.case_insensitive) {
                    Step::Skip
                } else {
                    self.found = true;
                    if cfg.max_matches < 0 || (cfg.max_matches > 0 && self.matches_emitted
                        >= cfg.max_matches as u64) {
                        Step::Halt
                    } else {
                        self.matches_emitted = self.matches_emitted + 1;
                        Step::Emit(render_match(cfg.show_line_number, self.line_number, text))
                    }
                }
            },
        }
    }
}

/// The matches among the first `m` lines begin the matches among the first
/// `n`, for `m <= n`.
pub proof fn lemma_matched_prefix(cfg: Config, lines: Seq<Option<String>>, m: int, n: int)
    requires
        0 <= m <= n,
    ensures
        matched_upto(cfg, lines, m).len() <= matched_upto(cfg, lines, n).len(),
        matched_upto(cfg, lines, n).take(matched_upto(cfg, lines, m).len() as int)
            == matched_upto(cfg, lines, m),
    decreases n - m,
{
    let a = matched_upto(cfg, lines, m);
    if n == m {
        assert(a.take(a.len() as int) =~= a);
    } else {
        lemma_matched_prefix(cfg, lines, m, n - 1);
        let b = matched_upto(cfg, lines, n - 1);
        if is_match(cfg, lines[n - 1]) {
            assert(b.push(n - 1).take(a.len() as int) =~= b.take(a.len() as int));
        }
    }
}

/// The result of scanning a whole sequence of lines.
pub struct ScanOutcome {
    /// The emitted lines, in order.
    pub emitted: Vec<String>,
    /// Whether any line matched.
    pub found: bool,
    /// How many lines were read before the scan ended.
    pub lines_read: usize,
}

/// Scans `lines` (`None` for a line that could not be decoded) under `cfg`.
pub fn scan_lines(cfg: &Config, lines: &Vec<Option<String>>) -> (r: ScanOutcome)
    requires
        lines@.len() < u64::MAX,
    ensures
        r.found == (matched_lines(*cfg, lines@).len() > 0),
        texts(r.emitted@) == emitted_spec(*cfg, lines@),
        r.lines_read == lines_read_spec(*cfg, lines@),
{
    let ghost c = *cfg;
    let ghost ls = lines@;
    let mut st = ScanState::new();
    let mut out: Vec<String> = Vec::new();
    let mut i: usize = 0;
    while i < lines.len()
        invariant
            c == *cfg,
            ls == lines@,
            i <= ls.len(),
            ls.len() < u64::MAX,
            st.wf(),
            st.line_number == i,
            st.matches_emitted == out@.len(),
            st.found == (matched_upto(c, ls, i as int).len() > 0),
            texts(out@) == matched_upto(c, ls, i as int).map_values(
                |k: int| emitted_line(c, ls, k),
            ),
            c.max_matches < 0 ==> matched_upto(c, ls, i as int).len() == 0,
            c.max_matches > 0 ==> matched_upto(c, ls, i as int).len() <= c.max_matches,
        decreases ls.len() - i,
    {
        let line = match &lines[i] {
            Some(t) => Some(t.as_str()),
            None => None,
        };
        let ghost before = matched_upto(c, ls, i as int);
        let ghost out_before = out@;
        let ghost emitted_before = st.matches_emitted;
        assert(texts(out@).len() == out@.len());
        assert(emitted_before == before.len());
        let step = st.step(cfg, line);
        assert(is_match(c, ls[i as int]) == (line is Some && line_matches_spec(
            line->Some_0@,
            c.pattern@,
            c.case_insensitive,
        )));
        match step {
            Step::Skip => {},
            Step::Emit(t) => {
                assert(t@ == emitted_line(c, ls, i as int));
                out.push(t);
                assert(texts(out@) =~= texts(out_before).push(t@));
                assert(matched_upto(c, ls, i + 1) == before.push(i as int));
                assert(texts(out@) =~= before.push(i as int).map_values(
                    |k: int| emitted_line(c, ls, k),
                ));
            },
            Step::Halt => {
                let ghost ms = matched_lines(c, ls);
                let ghost len = before.len() as int;
                proof {
                    lemma_matched_prefix(c, ls, i + 1, ls.len() as int);
                    assert(matched_upto(c, ls, i + 1) == before.push(i as int));
                    assert(ms.take(len + 1) == before.push(i as int));
                    assert(ms.take(len + 1)[len] == ms[len]);
                    assert(is_match(c, ls[i as int]));
                    assert(limit_reached(c.max_matches, len as nat));
                    assert(ms.len() >= len + 1);
                    assert(c.max_matches > 0 ==> len == c.max_matches);
                    assert(emit_count(c.max_matches, ms.len()) == len);
                    assert(ms.take(len) =~= before.push(i as int).take(len));
                    assert(before.push(i as int).take(len) =~= before);
                }
                return ScanOutcome { emitted: out, found: st.found, lines_read: i + 1 };
            },
        }
        i = i + 1;
    }
    proof {
        let ms = matched_lines(c, ls);
        assert(ms.take(ms.len() as int) =~= ms);
    }
    ScanOutcome { emitted: out, found: st.found, lines_read: i }
}

/// The matches among the first `n` lines are exactly the positions of the
/// matching lines below `n`, in increasing order.
pub proof fn lemma_matched_positions(cfg: Config, lines: Seq<Option<String>>, n: int)
    requires
        0 <= n <= lines.len(),
    ensures
        ({
            let ms = matched_upto(cfg, lines, n);
            &&& forall|k: int|
                0 <= k < ms.len() ==> 0 <= #[trigger] ms[k] < n && is_match(cfg, lines[ms[k]])
            &&& forall|k1: int, k2: int| 0 <= k1 < k2 < ms.len() ==> ms[k1] < ms[k2]
            &&& forall|i: int| 0 <= i < n && #[trigger] is_match(cfg, lines[i]) ==> ms.contains(i)
        }),
    decreases n,
{
    if n > 0 {
        lemma_matched_positions(cfg, lines, n - 1);
        let prev = matched_upto(cfg, lines, n - 1);
        let ms = matched_upto(cfg, lines, n);
        if is_match(cfg, lines[n - 1]) {
            assert(ms[prev.len() as int] == n - 1);
            assert forall|i: int| 0 <= i < n && #[trigger] is_match(cfg, lines[i]) implies ms.contains(i) by {
                if i < n - 1 {
                    let k = choose|k: int| 0 <= k < prev.len() && prev[k] == i;
                    assert(ms[k] == i);
                } else {
                    assert(ms[prev.len() as int] == i);
                }
            }
        }
    }
}

/// With line numbers shown, the k-th emitted line is the 1-based number of
/// the k-th matching line among all lines read, a colon, and that line.
pub proof fn law_numbered_lines(cfg: Config, lines: Seq<Option<String>>)
    requires
        cfg.show_line_number,
    ensures
        ({
            let ms = matched_lines(cfg, lines);
            let out = emitted_spec(cfg, lines);
            &&& out.len() <= ms.len()
            &&& forall|k: int|
                0 <= k < out.len() ==> 0 <= ms[k] < lines.len() && is_match(cfg, lines[ms[k]])
                    && #[trigger] out[k] == decimal((ms[k] + 1) as nat) + seq![':']
                    + lines[ms[k]]->Some_0@
            &&& forall|k1: int, k2: int| 0 <= k1 < k2 < ms.len() ==> ms[k1] < ms[k2]
        }),
{
    lemma_matched_positions(cfg, lines, lines.len() as int);
    let ms = matched_lines(cfg, lines);
    let out = emitted_spec(cfg, lines);
    assert forall|k: int| 0 <= k < out.len() implies 0 <= ms[k] < lines.len() && is_match(
        cfg,
        lines[ms[k]],
    ) && #[trigger] out[k] == decimal((ms[k] + 1) as nat) + seq![':'] + lines[ms[k]]->Some_0@ by {
        assert(ms[k] == ms.take(emit_count(cfg.max_matches, ms.len()) as int)[k]);
    }
}

/// With a positive limit and more matching lines than the limit, exactly
/// the limit's number of lines are emitted, the scan stops at the next
/// match (read, not emitted), and a match is reported as found.
pub proof fn law_positive_limit(cfg: Config, lines: Seq<Option<String>>)
    requires
        cfg.max_matches > 0,
        matched_lines(cfg, lines).len() > cfg.max_matches,
    ensures
        emitted_spec(cfg, lines).len() == cfg.max_matches,
        lines_read_spec(cfg, lines) == matched_lines(cfg, lines)[cfg.max_matches as int] + 1,
        is_match(cfg, lines[matched_lines(cfg, lines)[cfg.max_matches as int]]),
        matched_lines(cfg, lines).len() > 0,
{
    lemma_matched_positions(cfg, lines, lines.len() as int);
    let ms = matched_lines(cfg, lines);
    assert(is_match(cfg, lines[ms[cfg.max_matches as int]]));
}

/// With a negative limit and at least one matching line, nothing is
/// emitted, the scan stops at the first match, and a match is found.
pub proof fn law_negative_limit(cfg: Config, lines: Seq<Option<String>>)
    requires
        cfg.max_matches < 0,
        exists|i: int| 0 <= i < lines.len() && is_match(cfg, lines[i]),
    ensures
        emitted_spec(cfg, lines).len() == 0,
        matched_lines(cfg, lines).len() > 0,
        lines_read_spec(cfg, lines) == matched_lines(cfg, lines)[0] + 1,
        forall|i: int| 0 <= i < matched_lines(cfg, lines)[0] ==> !is_match(cfg, lines[i]),
{
    lemma_matched_positions(cfg, lines, lines.len() as int);
    let ms = matched_lines(cfg, lines);
    let i = choose|i: int| 0 <= i < lines.len() && is_match(cfg, lines[i]);
    assert(ms.contains(i));
    assert forall|j: int| 0 <= j < ms[0] implies !is_match(cfg, lines[j]) by {
        if is_match(cfg, lines[j]) {
            assert(ms.contains(j));
            let k = choose|k: int| 0 <= k < ms.len() && ms[k] == j;
            if k > 0 {
                assert(ms[0] < ms[k]);
            }
        }
    }
}

} // verus!
