//! Planning the runs that text shaping works on: the text is cut into script runs, and each
//! script run into runs of chars that one font of a fallback list draws.

use vstd::prelude::*;
use crate::text::{byte_offset, char_byte_offsets, chars_of, lemma_byte_offset_bounds};
use crate::unicode::{script_code, script_code_of};

verus! {

/// Text shaper. It holds no state: each run is shaped on its own.
#[derive(Debug, Clone, Copy)]
pub struct TextShaper;

impl TextShaper {
    /// A new shaper.
    pub fn new() -> (r: Self)
        ensures
            r == TextShaper,
    {
        TextShaper
    }
}

impl Default for TextShaper {
    fn default() -> (r: Self)
        ensures
            r == TextShaper,
    {
        TextShaper::new()
    }
}

/// Whether a script (by its ICU4C number) is Common (0) or Inherited (1): such chars take
/// the script of the run they stand in.
pub open spec fn is_neutral_script(code: u16) -> bool {
    code == 0 || code == 1
}

/// The end of a script run that has script `script` so far and goes on at char `j` of the
/// text whose scripts are `codes`, with the run's final script: a char of the same script or
/// a neutral one extends the run, and a run that is still neutral takes the script of the
/// next char.
pub open spec fn extend_script_run(codes: Seq<u16>, script: u16, j: int) -> (int, u16)
    decreases codes.len() - j,
{
    if 0 <= j < codes.len() && (codes[j] == script || is_neutral_script(codes[j])) {
        extend_script_run(codes, script, j + 1)
    } else if 0 <= j < codes.len() && is_neutral_script(script) {
        extend_script_run(codes, codes[j], j + 1)
    } else {
        (j, script)
    }
}

pub proof fn lemma_extend_script_run(codes: Seq<u16>, script: u16, j: int)
    requires
        0 <= j <= codes.len(),
    ensures
        j <= extend_script_run(codes, script, j).0 <= codes.len(),
    decreases codes.len() - j,
{
    if j < codes.len() {
        if codes[j] == script || is_neutral_script(codes[j]) {
            lemma_extend_script_run(codes, script, j + 1);
        } else if is_neutral_script(script) {
            lemma_extend_script_run(codes, codes[j], j + 1);
        }
    }
}

/// The script runs of the chars from `i` on, as (first char, end char, script).
pub open spec fn script_runs_from(codes: Seq<u16>, i: int) -> Seq<(int, int, u16)>
    decreases codes.len() - i,
{
    if 0 <= i < codes.len() {
        let run = extend_script_run(codes, codes[i], i + 1);
        proof {
            lemma_extend_script_run(codes, codes[i], i + 1);
        }
        seq![(i, run.0, run.1)] + script_runs_from(codes, run.0)
    } else {
        Seq::empty()
    }
}

/// The scripts of the chars of `t`.
pub open spec fn scripts_of(t: Seq<char>) -> Seq<u16> {
    t.map_values(|c: char| script_code(c))
}

/// The first font, from `f` on, that has a glyph in `row` (font 0 when none has).
pub open spec fn first_covering_from(row: Seq<bool>, f: int) -> int
    decreases row.len() - f,
{
    if 0 <= f < row.len() {
        if row[f] {
            f
        } else {
            first_covering_from(row, f + 1)
        }
    } else {
        0
    }
}

/// The font for a char whose glyph coverage by the fonts is `row`, when the char before it
/// in the run took font `last`: the primary font when it has the glyph, else the font of
/// the char before when it has it, else the first font that has it (the primary when none).
pub open spec fn pick_font(row: Seq<bool>, last: int) -> int {
    if row[0] {
        0
    } else if last != 0 && row[last] {
        last
    } else {
        first_covering_from(row, 0)
    }
}

/// The fonts of chars `i..j`, where `cov[k]` is the coverage row of char `k` and the char
/// before `i` took font `last`.
pub open spec fn fonts_from(cov: Seq<Seq<bool>>, i: int, j: int, last: int) -> Seq<int>
    decreases j - i,
{
    if i < j {
        let f = pick_font(cov[i], last);
        seq![f] + fonts_from(cov, i + 1, j, f)
    } else {
        Seq::empty()
    }
}

/// The end of the group of equal fonts `f` that goes on at `k`.
pub open spec fn same_font_end(fs: Seq<int>, f: int, k: int) -> int
    decreases fs.len() - k,
{
    if 0 <= k < fs.len() && fs[k] == f {
        same_font_end(fs, f, k + 1)
    } else {
        k
    }
}

pub proof fn lemma_same_font_end(fs: Seq<int>, f: int, k: int)
    requires
        0 <= k <= fs.len(),
    ensures
        k <= same_font_end(fs, f, k) <= fs.len(),
    decreases fs.len() - k,
{
    if k < fs.len() && fs[k] == f {
        lemma_same_font_end(fs, f, k + 1);
    }
}

/// The groups of consecutive equal fonts of `fs` from `k` on, as (first, end, font).
pub open spec fn font_groups_from(fs: Seq<int>, k: int) -> Seq<(int, int, int)>
    decreases fs.len() - k,
{
    if 0 <= k < fs.len() {
        let e = same_font_end(fs, fs[k], k + 1);
        proof {
            lemma_same_font_end(fs, fs[k], k + 1);
        }
        seq![(k, e, fs[k])] + font_groups_from(fs, e)
    } else {
        Seq::empty()
    }
}

/// The font runs of one script run of `t`, as (start byte, end byte, font, script): the
/// run's chars get their fonts (starting afresh from the primary font), and each group of
/// consecutive chars with the same font is one run.
pub open spec fn script_run_plan(t: Seq<char>, cov: Seq<Seq<bool>>, run: (int, int, u16)) -> Seq<(int, int, int, u16)> {
    let fs = fonts_from(cov, run.0, run.1, 0);
    font_groups_from(fs, 0).map_values(
        |g: (int, int, int)| (byte_offset(t, run.0 + g.0), byte_offset(t, run.0 + g.1), g.2, run.2),
    )
}

/// The font runs of script runs `k..` of `t`, in order.
pub open spec fn plans_from(t: Seq<char>, cov: Seq<Seq<bool>>, runs: Seq<(int, int, u16)>, k: int) -> Seq<(int, int, int, u16)>
    decreases runs.len() - k,
{
    if 0 <= k < runs.len() {
        script_run_plan(t, cov, runs[k]) + plans_from(t, cov, runs, k + 1)
    } else {
        Seq::empty()
    }
}

/// The runs that shaping `t` works on, given the glyph coverage of each char by each of
/// `font_count` fonts: none for empty text or no fonts.
pub open spec fn shaping_runs(t: Seq<char>, cov: Seq<Seq<bool>>, font_count: int) -> Seq<(int, int, int, u16)> {
    if t.len() == 0 || font_count == 0 {
        Seq::empty()
    } else {
        plans_from(t, cov, script_runs_from(scripts_of(t), 0), 0)
    }
}

/// A script run: chars `start..end` (by index) of one script.
#[derive(Debug, Clone, Copy, PartialEq, Eq, Structural)]
pub struct ScriptRun {
    pub start: usize,
    pub end: usize,
    /// The script, by its ICU4C number.
    pub script: u16,
}

impl View for ScriptRun {
    type V = (int, int, u16);

    open spec fn view(&self) -> (int, int, u16) {
        (self.start as int, self.end as int, self.script)
    }
}

/// A run to shape with one font: bytes `start..end` of the text, drawn with font `font` of
/// the fallback list, of script `script` (by its ICU4C number).
#[derive(Debug, Clone, Copy, PartialEq, Eq, Structural)]
pub struct FontRun {
    pub start: usize,
    pub end: usize,
    pub font: usize,
    pub script: u16,
}

impl View for FontRun {
    type V = (int, int, int, u16);

    open spec fn view(&self) -> (int, int, int, u16) {
        (self.start as int, self.end as int, self.font as int, self.script)
    }
}

/// The views of a list of script runs.
pub open spec fn script_run_views(runs: Seq<ScriptRun>) -> Seq<(int, int, u16)> {
    runs.map_values(|r: ScriptRun| r@)
}

/// The views of a list of font runs.
pub open spec fn font_run_views(runs: Seq<FontRun>) -> Seq<(int, int, int, u16)> {
    runs.map_values(|r: FontRun| r@)
}

/// The script runs of a text whose chars have the scripts `codes`.
pub fn script_runs(codes: &Vec<u16>) -> (r: Vec<ScriptRun>)
    ensures
        script_run_views(r@) == script_runs_from(codes@, 0),
{
    let n = codes.len();
    let mut runs: Vec<ScriptRun> = Vec::new();
    let mut i: usize = 0;
    while i < n
        invariant
            n == codes@.len(),
            i <= n,
            script_run_views(runs@) + script_runs_from(codes@, i as int) == script_runs_from(codes@, 0),
        decreases n - i,
    {
        let mut script = codes[i];
        let mut j = i + 1;
        while j < n && (codes[j] == script || codes[j] == 0 || codes[j] == 1 || script == 0 || script == 1)
            invariant
                n == codes@.len(),
                i < j <= n,
                extend_script_run(codes@, script, j as int) == extend_script_run(codes@, codes@[i as int], i + 1),
            decreases n - j,
        {
            if codes[j] != script && codes[j] != 0 && codes[j] != 1 {
                script = codes[j];
            }
            j = j + 1;
        }
        let run = ScriptRun { start: i, end: j, script };
        proof {
            assert(extend_script_run(codes@, script, j as int) == (j as int, script));
            let rest = script_runs_from(codes@, j as int);
            assert(script_runs_from(codes@, i as int) == seq![run@] + rest);
            assert(script_run_views(runs@.push(run)) =~= script_run_views(runs@).push(run@));
            assert(script_run_views(runs@).push(run@) + rest =~= script_run_views(runs@) + (seq![run@] + rest));
        }
        runs.push(run);
        i = j;
    }
    proof {
        assert(script_runs_from(codes@, n as int) =~= Seq::<(int, int, u16)>::empty());
        assert(script_run_views(runs@) + Seq::<(int, int, u16)>::empty() =~= script_run_views(runs@));
    }
    runs
}

proof fn lemma_first_covering_from(row: Seq<bool>, f: int)
    requires
        0 <= f <= row.len(),
        row.len() >= 1,
    ensures
        0 <= first_covering_from(row, f) < row.len(),
    decreases row.len() - f,
{
    if f < row.len() && !row[f] {
        lemma_first_covering_from(row, f + 1);
    }
}

/// The font for a char whose coverage row is `row`, after a char that took font `last`.
fn pick_font_index(row: &Vec<bool>, last: usize) -> (r: usize)
    requires
        row@.len() >= 1,
        last < row@.len(),
    ensures
        r == pick_font(row@, last as int),
        r < row@.len(),
{
    if row[0] {
        return 0;
    }
    if last != 0 && row[last] {
        return last;
    }
    let mut f: usize = 0;
    proof {
        lemma_first_covering_from(row@, 0);
    }
    while f < row.len() && !row[f]
        invariant
            f <= row@.len(),
            row@.len() >= 1,
            first_covering_from(row@, f as int) == first_covering_from(row@, 0),
        decreases row@.len() - f,
    {
        f = f + 1;
    }
    if f < row.len() {
        f
    } else {
        0
    }
}

/// The fonts of chars `i..j`, starting afresh from the primary font.
fn run_fonts(coverage: &Vec<Vec<bool>>, font_count: usize, i: usize, j: usize) -> (r: Vec<usize>)
    requires
        i <= j <= coverage@.len(),
        font_count >= 1,
        forall|k: int| 0 <= k < coverage@.len() ==> #[trigger] coverage@[k]@.len() == font_count,
    ensures
        r@.map_values(|x: usize| x as int) == fonts_from(
            coverage@.map_values(|row: Vec<bool>| row@),
            i as int,
            j as int,
            0,
        ),
        r@.len() == j - i,
{
    let ghost cov = coverage@.map_values(|row: Vec<bool>| row@);
    let mut out: Vec<usize> = Vec::new();
    let mut last: usize = 0;
    let mut k = i;
    while k < j
        invariant
            cov == coverage@.map_values(|row: Vec<bool>| row@),
            i <= k <= j <= coverage@.len(),
            font_count >= 1,
            forall|m: int| 0 <= m < coverage@.len() ==> #[trigger] coverage@[m]@.len() == font_count,
            last < font_count,
            out@.len() == k - i,
            out@.map_values(|x: usize| x as int) + fonts_from(cov, k as int, j as int, last as int)
                == fonts_from(cov, i as int, j as int, 0),
        decreases j - k,
    {
        let f = pick_font_index(&coverage[k], last);
        proof {
            assert(cov[k as int] == coverage@[k as int]@);
            let rest = fonts_from(cov, k + 1, j as int, f as int);
            assert(fonts_from(cov, k as int, j as int, last as int) == seq![f as int] + rest);
            assert(out@.push(f).map_values(|x: usize| x as int) =~= out@.map_values(|x: usize| x as int).push(f as int));
            assert(out@.map_values(|x: usize| x as int).push(f as int) + rest =~= out@.map_values(|x: usize| x as int) + (seq![f as int] + rest));
        }
        out.push(f);
        last = f;
        k = k + 1;
    }
    proof {
        assert(fonts_from(cov, k as int, j as int, last as int) =~= Seq::<int>::empty());
        assert(out@.map_values(|x: usize| x as int) + Seq::<int>::empty() =~= out@.map_values(|x: usize| x as int));
    }
    out
}

/// The groups of consecutive equal fonts of `fonts`, as (first, end, font).
fn font_groups(fonts: &Vec<usize>) -> (r: Vec<(usize, usize, usize)>)
    ensures
        r@.map_values(|g: (usize, usize, usize)| (g.0 as int, g.1 as int, g.2 as int)) == font_groups_from(
            fonts@.map_values(|x: usize| x as int),
            0,
        ),
        forall|m: int| 0 <= m < r@.len() ==> #[trigger] r@[m].0 < r@[m].1 <= fonts@.len(),
{
    let ghost fs = fonts@.map_values(|x: usize| x as int);
    let n = fonts.len();
    let mut out: Vec<(usize, usize, usize)> = Vec::new();
    let mut k: usize = 0;
    while k < n
        invariant
            fs == fonts@.map_values(|x: usize| x as int),
            n == fonts@.len(),
            k <= n,
            out@.map_values(|g: (usize, usize, usize)| (g.0 as int, g.1 as int, g.2 as int))
                + font_groups_from(fs, k as int) == font_groups_from(fs, 0),
            forall|m: int| 0 <= m < out@.len() ==> #[trigger] out@[m].0 < out@[m].1 <= n,
        decreases n - k,
    {
        let f = fonts[k];
        let mut e = k + 1;
        while e < n && fonts[e] == f
            invariant
                fs == fonts@.map_values(|x: usize| x as int),
                n == fonts@.len(),
                k < e <= n,
                f == fonts@[k as int],
                same_font_end(fs, f as int, e as int) == same_font_end(fs, fs[k as int], k + 1),
            decreases n - e,
        {
            e = e + 1;
        }
        let g = (k, e, f);
        proof {
            assert(same_font_end(fs, f as int, e as int) == e);
            let rest = font_groups_from(fs, e as int);
            assert(font_groups_from(fs, k as int) == seq![(k as int, e as int, f as int)] + rest);
            let mv = out@.map_values(|g: (usize, usize, usize)| (g.0 as int, g.1 as int, g.2 as int));
            assert(out@.push(g).map_values(|g: (usize, usize, usize)| (g.0 as int, g.1 as int, g.2 as int)) =~= mv.push(
                (k as int, e as int, f as int),
            ));
            assert(mv.push((k as int, e as int, f as int)) + rest =~= mv + (seq![(k as int, e as int, f as int)] + rest));
        }
        out.push(g);
        proof {
            assert forall|m: int| 0 <= m < out@.len() implies #[trigger] out@[m].0 < out@[m].1 <= n by {
                if m == out@.len() - 1 {
                    assert(out@[m] == g);
                }
            }
        }
        k = e;
    }
    proof {
        let mv = out@.map_values(|g: (usize, usize, usize)| (g.0 as int, g.1 as int, g.2 as int));
        assert(font_groups_from(fs, n as int) =~= Seq::<(int, int, int)>::empty());
        assert(mv + Seq::<(int, int, int)>::empty() =~= mv);
    }
    out
}

/// The runs that shaping `text` works on, given `coverage[k][f]`, whether font `f` of the
/// `font_count` fonts of the fallback list (the primary first) has a glyph for char `k`:
/// the text is cut into script runs (Common and Inherited chars join the run they stand in),
/// and each script run into runs of consecutive chars with the same font, where a char takes
/// the primary font when it has the glyph, else the font of the char before it in the run
/// when that has it, else the first font that has it (the primary when none has). Each run
/// carries the script of its script run. Empty text or no fonts gives no runs.
pub fn script_font_runs(text: &str, coverage: &Vec<Vec<bool>>, font_count: usize) -> (r: Vec<FontRun>)
    requires
        coverage@.len() == text@.len(),
        forall|k: int| 0 <= k < coverage@.len() ==> #[trigger] coverage@[k]@.len() == font_count,
    ensures
        font_run_views(r@) == shaping_runs(text@, coverage@.map_values(|row: Vec<bool>| row@), font_count as int),
{
    let ghost t = text@;
    let ghost cov = coverage@.map_values(|row: Vec<bool>| row@);
    let mut out: Vec<FontRun> = Vec::new();
    if font_count == 0 {
        return out;
    }
    let chars = chars_of(text);
    if chars.len() == 0 {
        return out;
    }
    let offsets = char_byte_offsets(text);
    let mut codes: Vec<u16> = Vec::new();
    let mut c: usize = 0;
    while c < chars.len()
        invariant
            chars@ == t,
            c <= chars@.len(),
            codes@ == scripts_of(t).take(c as int),
        decreases chars@.len() - c,
    {
        codes.push(script_code_of(chars[c]));
        proof {
            assert(codes@ =~= scripts_of(t).take(c + 1));
        }
        c = c + 1;
    }
    proof {
        assert(codes@ =~= scripts_of(t));
    }
    let runs = script_runs(&codes);
    let ghost rv = script_run_views(runs@);
    proof {
        lemma_script_runs_within(codes@, 0);
    }
    let mut k: usize = 0;
    while k < runs.len()
        invariant
            chars@ == t,
            cov == coverage@.map_values(|row: Vec<bool>| row@),
            coverage@.len() == t.len(),
            font_count >= 1,
            forall|m: int| 0 <= m < coverage@.len() ==> #[trigger] coverage@[m]@.len() == font_count,
            offsets@.len() == t.len() + 1,
            forall|m: int| 0 <= m <= t.len() ==> #[trigger] offsets@[m] == byte_offset(t, m),
            rv == script_run_views(runs@),
            rv == script_runs_from(scripts_of(t), 0),
            forall|m: int| 0 <= m < rv.len() ==> #[trigger] rv[m].0 <= rv[m].1 <= t.len(),
            k <= runs@.len(),
            font_run_views(out@) + plans_from(t, cov, rv, k as int) == plans_from(t, cov, rv, 0),
        decreases runs@.len() - k,
    {
        let run = runs[k];
        proof {
            assert(rv[k as int] == run@);
        }
        let fonts = run_fonts(coverage, font_count, run.start, run.end);
        let groups = font_groups(&fonts);
        let ghost fs = fonts@.map_values(|x: usize| x as int);
        let ghost piece = script_run_plan(t, cov, run@);
        let ghost before = font_run_views(out@);
        let mut g: usize = 0;
        while g < groups.len()
            invariant
                chars@ == t,
                offsets@.len() == t.len() + 1,
                forall|m: int| 0 <= m <= t.len() ==> #[trigger] offsets@[m] == byte_offset(t, m),
                run.start <= run.end <= t.len(),
                fonts@.len() == run.end - run.start,
                forall|m: int| 0 <= m < groups@.len() ==> #[trigger] groups@[m].0 < groups@[m].1 <= fonts@.len(),
                groups@.map_values(|q: (usize, usize, usize)| (q.0 as int, q.1 as int, q.2 as int))
                    == font_groups_from(fs, 0),
                piece == font_groups_from(fs, 0).map_values(
                    |q: (int, int, int)| (byte_offset(t, run.start + q.0), byte_offset(t, run.start + q.1), q.2, run.script),
                ),
                g <= groups@.len(),
                font_run_views(out@) == before + piece.take(g as int),
            decreases groups@.len() - g,
        {
            let q = groups[g];
            proof {
                assert(groups@[g as int].0 < groups@[g as int].1 <= fonts@.len());
            }
            let fr = FontRun {
                start: offsets[run.start + q.0],
                end: offsets[run.start + q.1],
                font: q.2,
                script: run.script,
            };
            proof {
                let qv = font_groups_from(fs, 0)[g as int];
                assert(qv == (q.0 as int, q.1 as int, q.2 as int));
                assert(piece[g as int] == fr@);
                assert(font_run_views(out@.push(fr)) =~= font_run_views(out@).push(fr@));
                assert(piece.take(g + 1) =~= piece.take(g as int).push(piece[g as int]));
                assert(before + piece.take(g + 1) =~= (before + piece.take(g as int)).push(fr@));
            }
            out.push(fr);
            g = g + 1;
        }
        proof {
            assert(piece.take(g as int) =~= piece);
            let rest = plans_from(t, cov, rv, k + 1);
            assert(plans_from(t, cov, rv, k as int) == piece + rest);
            assert(before + piece + rest =~= before + (piece + rest));
        }
        k = k + 1;
    }
    proof {
        assert(plans_from(t, cov, rv, k as int) =~= Seq::<(int, int, int, u16)>::empty());
        assert(font_run_views(out@) + Seq::<(int, int, int, u16)>::empty() =~= font_run_views(out@));
    }
    out
}

/// Shifts the glyph clusters of a run that starts `run_start` bytes into the text (as a
/// `u32`, the width that shapers count clusters in) from offsets within the run to offsets
/// within the whole text.
pub fn absolute_clusters(clusters: &mut Vec<u32>, run_start: usize)
    requires
        forall|i: int| 0 <= i < old(clusters)@.len() ==> old(clusters)@[i] + (run_start as u32) <= u32::MAX,
    ensures
        final(clusters)@.len() == old(clusters)@.len(),
        forall|i: int|
            0 <= i < final(clusters)@.len() ==> #[trigger] final(clusters)@[i] == old(clusters)@[i] + (run_start as u32),
{
    let shift = run_start as u32;
    let ghost before = clusters@;
    let mut i: usize = 0;
    while i < clusters.len()
        invariant
            shift == run_start as u32,
            clusters@.len() == before.len(),
            i <= clusters@.len(),
            forall|k: int| 0 <= k < before.len() ==> before[k] + shift <= u32::MAX,
            forall|k: int| 0 <= k < i ==> #[trigger] clusters@[k] == before[k] + shift,
            forall|k: int| i <= k < clusters@.len() ==> #[trigger] clusters@[k] == before[k],
        decreases before.len() - i,
    {
        let v = clusters[i] + shift;
        clusters.set(i, v);
        i = i + 1;
    }
}

/// Every script run lies within the text, its first char before its end.
proof fn lemma_script_runs_within(codes: Seq<u16>, i: int)
    requires
        0 <= i <= codes.len(),
    ensures
        forall|m: int|
            0 <= m < script_runs_from(codes, i).len() ==> #[trigger] script_runs_from(codes, i)[m].0
                <= script_runs_from(codes, i)[m].1 <= codes.len(),
    decreases codes.len() - i,
{
    if i < codes.len() {
        let run = extend_script_run(codes, codes[i], i + 1);
        lemma_extend_script_run(codes, codes[i], i + 1);
        lemma_script_runs_within(codes, run.0);
        let rest = script_runs_from(codes, run.0);
        let all = script_runs_from(codes, i);
        assert forall|m: int| 0 <= m < all.len() implies #[trigger] all[m].0 <= all[m].1 <= codes.len() by {
            if m > 0 {
                assert(all[m] == rest[m - 1]);
            }
        }
    }
}

/// The ISO 15924 tag that a run of script `code` (by its ICU4C number) is shaped with:
/// Arabic, Hebrew, Syriac, Thaana, N'Ko, Adlam and Thai get their own, Han, Hiragana and
/// Katakana get `Hani`, and any other script none (the shaper then guesses).
pub open spec fn script_tag(code: u16) -> Option<Seq<char>> {
    if code == 2 {
        Some(seq!['A', 'r', 'a', 'b'])
    } else if code == 19 {
        Some(seq!['H', 'e', 'b', 'r'])
    } else if code == 34 {
        Some(seq!['S', 'y', 'r', 'c'])
    } else if code == 37 {
        Some(seq!['T', 'h', 'a', 'a'])
    } else if code == 87 {
        Some(seq!['N', 'k', 'o', 'o'])
    } else if code == 167 {
        Some(seq!['A', 'd', 'l', 'm'])
    } else if code == 38 {
        Some(seq!['T', 'h', 'a', 'i'])
    } else if code == 17 || code == 20 || code == 22 {
        Some(seq!['H', 'a', 'n', 'i'])
    } else {
        None
    }
}

/// The ISO 15924 tag that a run of script `code` (by its ICU4C number) is shaped with.
pub fn iso15924_script_tag(code: u16) -> (r: Option<&'static str>)
    ensures
        match r {
            Some(s) => script_tag(code) == Some(s@),
            None => script_tag(code) is None,
        },
{
    if code == 2 {
        proof { reveal_strlit("Arab"); }
        Some("Arab")
    } else if code == 19 {
        proof { reveal_strlit("Hebr"); }
        Some("Hebr")
    } else if code == 34 {
        proof { reveal_strlit("Syrc"); }
        Some("Syrc")
    } else if code == 37 {
        proof { reveal_strlit("Thaa"); }
        Some("Thaa")
    } else if code == 87 {
        proof { reveal_strlit("Nkoo"); }
        Some("Nkoo")
    } else if code == 167 {
        proof { reveal_strlit("Adlm"); }
        Some("Adlm")
    } else if code == 38 {
        proof { reveal_strlit("Thai"); }
        Some("Thai")
    } else if code == 17 || code == 20 || code == 22 {
        proof { reveal_strlit("Hani"); }
        Some("Hani")
    } else {
        None
    }
}


/// Whether `runs`, in order, cover bytes `a..b` of a text: the first starts at `a`, each
/// ends where the next starts, the last ends at `b`, none is empty, and each is drawn with
/// one of `font_count` fonts.
pub open spec fn runs_cover(runs: Seq<(int, int, int, u16)>, a: int, b: int, font_count: int) -> bool {
    &&& runs.len() >= 1
    &&& runs[0].0 == a
    &&& runs.last().1 == b
    &&& forall|k: int| 0 <= k < runs.len() - 1 ==> #[trigger] runs[k].1 == runs[k + 1].0
    &&& forall|k: int| 0 <= k < runs.len() ==> #[trigger] runs[k].0 < runs[k].1 && 0 <= runs[k].2 < font_count
}

proof fn lemma_runs_cover_concat(p: Seq<(int, int, int, u16)>, q: Seq<(int, int, int, u16)>, a: int, m: int, b: int, fc: int)
    requires
        runs_cover(p, a, m, fc),
        runs_cover(q, m, b, fc),
    ensures
        runs_cover(p + q, a, b, fc),
{
    let pq = p + q;
    assert forall|k: int| 0 <= k < pq.len() - 1 implies #[trigger] pq[k].1 == pq[k + 1].0 by {
        if k < p.len() - 1 {
            assert(pq[k] == p[k] && pq[k + 1] == p[k + 1]);
        } else if k == p.len() - 1 {
            assert(pq[k] == p.last() && pq[k + 1] == q[0]);
        } else {
            assert(pq[k] == q[k - p.len()] && pq[k + 1] == q[k - p.len() + 1]);
        }
    }
    assert forall|k: int| 0 <= k < pq.len() implies #[trigger] pq[k].0 < pq[k].1 && 0 <= pq[k].2 < fc by {
        if k < p.len() {
            assert(pq[k] == p[k]);
        } else {
            assert(pq[k] == q[k - p.len()]);
        }
    }
    assert(pq[0] == p[0]);
    assert(pq.last() == q.last());
}

/// The script runs from char `i` on cover chars `i..` in order, none empty.
proof fn lemma_script_runs_tile(codes: Seq<u16>, i: int)
    requires
        0 <= i < codes.len(),
    ensures
        script_runs_from(codes, i).len() >= 1,
        script_runs_from(codes, i)[0].0 == i,
        script_runs_from(codes, i).last().1 == codes.len(),
        forall|k: int|
            0 <= k < script_runs_from(codes, i).len() - 1 ==> #[trigger] script_runs_from(codes, i)[k].1
                == script_runs_from(codes, i)[k + 1].0,
        forall|k: int|
            0 <= k < script_runs_from(codes, i).len() ==> i <= #[trigger] script_runs_from(codes, i)[k].0
                < script_runs_from(codes, i)[k].1 <= codes.len(),
    decreases codes.len() - i,
{
    let run = extend_script_run(codes, codes[i], i + 1);
    lemma_extend_script_run(codes, codes[i], i + 1);
    let all = script_runs_from(codes, i);
    let rest = script_runs_from(codes, run.0);
    assert(all == seq![(i, run.0, run.1)] + rest);
    if run.0 < codes.len() {
        lemma_script_runs_tile(codes, run.0);
        assert forall|k: int| 0 <= k < all.len() - 1 implies #[trigger] all[k].1 == all[k + 1].0 by {
            assert(all[k + 1] == rest[k]);
            if k > 0 {
                assert(all[k] == rest[k - 1]);
            }
        }
        assert forall|k: int| 0 <= k < all.len() implies i <= #[trigger] all[k].0 < all[k].1 <= codes.len() by {
            if k > 0 {
                assert(all[k] == rest[k - 1]);
            }
        }
        assert(all.last() == rest.last());
    } else {
        assert(rest =~= Seq::<(int, int, u16)>::empty());
        assert(all =~= seq![(i, run.0, run.1)]);
    }
}

/// The fonts of chars `i..j` are one per char, each one of the fonts.
proof fn lemma_fonts_from(cov: Seq<Seq<bool>>, i: int, j: int, last: int, fc: int)
    requires
        0 <= i <= j <= cov.len(),
        0 <= last < fc,
        forall|k: int| 0 <= k < cov.len() ==> #[trigger] cov[k].len() == fc,
    ensures
        fonts_from(cov, i, j, last).len() == j - i,
        forall|k: int| 0 <= k < j - i ==> 0 <= #[trigger] fonts_from(cov, i, j, last)[k] < fc,
    decreases j - i,
{
    if i < j {
        let f = pick_font(cov[i], last);
        lemma_first_covering_from(cov[i], 0);
        assert(0 <= f < fc);
        lemma_fonts_from(cov, i + 1, j, f, fc);
        let all = fonts_from(cov, i, j, last);
        let rest = fonts_from(cov, i + 1, j, f);
        assert(all == seq![f] + rest);
        assert forall|k: int| 0 <= k < j - i implies 0 <= #[trigger] all[k] < fc by {
            if k > 0 {
                assert(all[k] == rest[k - 1]);
            }
        }
    }
}

/// The groups of equal fonts from `k` on cover `k..` in order, none empty, each with the
/// font of its chars.
proof fn lemma_font_groups_tile(fs: Seq<int>, k: int)
    requires
        0 <= k < fs.len(),
    ensures
        font_groups_from(fs, k).len() >= 1,
        font_groups_from(fs, k)[0].0 == k,
        font_groups_from(fs, k).last().1 == fs.len(),
        forall|m: int|
            0 <= m < font_groups_from(fs, k).len() - 1 ==> #[trigger] font_groups_from(fs, k)[m].1
                == font_groups_from(fs, k)[m + 1].0,
        forall|m: int|
            0 <= m < font_groups_from(fs, k).len() ==> k <= #[trigger] font_groups_from(fs, k)[m].0
                < font_groups_from(fs, k)[m].1 <= fs.len() && font_groups_from(fs, k)[m].2 == fs[font_groups_from(
                fs,
                k,
            )[m].0],
    decreases fs.len() - k,
{
    let e = same_font_end(fs, fs[k], k + 1);
    lemma_same_font_end(fs, fs[k], k + 1);
    let all = font_groups_from(fs, k);
    let rest = font_groups_from(fs, e);
    assert(all == seq![(k, e, fs[k])] + rest);
    if e < fs.len() {
        lemma_font_groups_tile(fs, e);
        assert forall|m: int| 0 <= m < all.len() - 1 implies #[trigger] all[m].1 == all[m + 1].0 by {
            assert(all[m + 1] == rest[m]);
            if m > 0 {
                assert(all[m] == rest[m - 1]);
            }
        }
        assert forall|m: int| 0 <= m < all.len() implies k <= #[trigger] all[m].0 < all[m].1 <= fs.len()
            && all[m].2 == fs[all[m].0] by {
            if m > 0 {
                assert(all[m] == rest[m - 1]);
            }
        }
        assert(all.last() == rest.last());
    } else {
        assert(rest =~= Seq::<(int, int, int)>::empty());
        assert(all =~= seq![(k, e, fs[k])]);
    }
}

/// The font runs of a non-empty script run cover its bytes.
proof fn lemma_script_run_plan(t: Seq<char>, cov: Seq<Seq<bool>>, run: (int, int, u16), fc: int)
    requires
        0 <= run.0 < run.1 <= t.len(),
        cov.len() == t.len(),
        fc >= 1,
        forall|k: int| 0 <= k < cov.len() ==> #[trigger] cov[k].len() == fc,
    ensures
        runs_cover(script_run_plan(t, cov, run), byte_offset(t, run.0), byte_offset(t, run.1), fc),
{
    let fs = fonts_from(cov, run.0, run.1, 0);
    lemma_fonts_from(cov, run.0, run.1, 0, fc);
    lemma_font_groups_tile(fs, 0);
    let groups = font_groups_from(fs, 0);
    let plan = script_run_plan(t, cov, run);
    assert forall|m: int| 0 <= m < plan.len() implies #[trigger] plan[m].0 < plan[m].1 && 0 <= plan[m].2 < fc by {
        let g = groups[m];
        assert(plan[m] == (byte_offset(t, run.0 + g.0), byte_offset(t, run.0 + g.1), g.2, run.2));
        crate::text::lemma_byte_offset_bounds(t, run.0 + g.0, run.0 + g.1);
        assert(fs[g.0] == g.2);
    }
    assert forall|m: int| 0 <= m < plan.len() - 1 implies #[trigger] plan[m].1 == plan[m + 1].0 by {
        assert(groups[m].1 == groups[m + 1].0);
    }
    assert(plan[0].0 == byte_offset(t, run.0 + groups[0].0));
    assert(plan.last() == plan[plan.len() - 1]);
    assert(groups.last() == groups[groups.len() - 1]);
}

/// The font runs of script runs `k..` cover the bytes from the start of run `k` to the end
/// of the text.
proof fn lemma_plans_from(t: Seq<char>, cov: Seq<Seq<bool>>, runs: Seq<(int, int, u16)>, k: int, fc: int)
    requires
        0 <= k < runs.len(),
        runs.last().1 == t.len(),
        forall|m: int| 0 <= m < runs.len() - 1 ==> #[trigger] runs[m].1 == runs[m + 1].0,
        forall|m: int| 0 <= m < runs.len() ==> 0 <= #[trigger] runs[m].0 < runs[m].1 <= t.len(),
        cov.len() == t.len(),
        fc >= 1,
        forall|m: int| 0 <= m < cov.len() ==> #[trigger] cov[m].len() == fc,
    ensures
        runs_cover(plans_from(t, cov, runs, k), byte_offset(t, runs[k].0), byte_offset(t, t.len() as int), fc),
    decreases runs.len() - k,
{
    lemma_script_run_plan(t, cov, runs[k], fc);
    let here = script_run_plan(t, cov, runs[k]);
    if k + 1 < runs.len() {
        lemma_plans_from(t, cov, runs, k + 1, fc);
        assert(runs[k].1 == runs[k + 1].0);
        lemma_runs_cover_concat(
            here,
            plans_from(t, cov, runs, k + 1),
            byte_offset(t, runs[k].0),
            byte_offset(t, runs[k].1),
            byte_offset(t, t.len() as int),
            fc,
        );
    } else {
        assert(plans_from(t, cov, runs, k + 1) =~= Seq::<(int, int, int, u16)>::empty());
        assert(here + Seq::<(int, int, int, u16)>::empty() =~= here);
        assert(runs.last() == runs[k]);
    }
}

/// Shaping covers the whole text, in logical order: the runs of a non-empty text with at
/// least one font start at byte 0, each ends where the next starts, the last ends at the
/// end of the text, none is empty, and each is drawn with one of the given fonts.
pub proof fn law_shaping_runs_cover_text(t: Seq<char>, cov: Seq<Seq<bool>>, font_count: int)
    requires
        t.len() > 0,
        font_count >= 1,
        cov.len() == t.len(),
        forall|k: int| 0 <= k < cov.len() ==> #[trigger] cov[k].len() == font_count,
    ensures
        runs_cover(shaping_runs(t, cov, font_count), 0, vstd::utf8::encode_utf8(t).len() as int, font_count),
{
    let codes = scripts_of(t);
    lemma_script_runs_tile(codes, 0);
    let runs = script_runs_from(codes, 0);
    lemma_plans_from(t, cov, runs, 0, font_count);
    crate::text::lemma_byte_offset_bounds(t, 0, t.len() as int);
}

} // verus!
