//! Searching lines for a regular expression and collecting, for every
//! matching line, the lines around it.

use vstd::prelude::*;

verus! {

broadcast use vstd::seq_lib::group_seq_properties;

#[verifier::external_type_specification]
#[verifier::external_body]
pub struct ExRegex(regex::Regex);

/// Whether `regex::Regex::new` accepts `pattern`.
pub uninterp spec fn regex_compiles(pattern: Seq<char>) -> bool;

/// Whether `regex::Regex::find`, on the expression compiled from `pattern`,
/// finds a match anywhere in `haystack`.
pub uninterp spec fn regex_finds(pattern: Seq<char>, haystack: Seq<char>) -> bool;

/// A compiled regular expression together with the text it was compiled
/// from.
struct Pattern {
    re: regex::Regex,
    source: String,
}

impl View for Pattern {
    type V = Seq<char>;

    /// The text the expression was compiled from.
    closed spec fn view(&self) -> Seq<char> {
        self.source@
    }
}

impl Pattern {
    /// Compiles `pattern` with `regex::Regex::new`. The contract claims that
    /// whether compilation succeeds depends on the pattern text alone, and
    /// that the result remembers that text.
    #[verifier::external_body]
    fn new(pattern: &str) -> (r: Option<Pattern>)
        ensures
            r is Some <==> regex_compiles(pattern@),
            r matches Some(p) ==> p@ == pattern@,
    {
        match regex::Regex::new(pattern) {
            Ok(re) => Some(Pattern { re, source: pattern.to_string() }),
            Err(_) => None,
        }
    }

    /// Asks `regex::Regex::find` for a match in `haystack`. The contract
    /// claims that the answer depends on the pattern text and the haystack
    /// alone; what a match is, is left to the regex crate.
    #[verifier::external_body]
    fn finds_in(&self, haystack: &str) -> (r: bool)
        ensures
            r == regex_finds(self@, haystack@),
    {
        self.re.find(haystack).is_some()
    }
}

/// Each line paired with its (zero-based) line number.
pub open spec fn numbered(lines: Seq<String>) -> Seq<(usize, String)> {
    Seq::new(lines.len(), |i: int| (i as usize, lines[i]))
}

/// The line numbers `0 .. n`.
pub open spec fn line_numbers(n: nat) -> Seq<usize> {
    Seq::new(n, |i: int| i as usize)
}

/// Whether line `i` of `lines` holds a match for `pattern`.
pub open spec fn line_matches(pattern: Seq<char>, lines: Seq<String>) -> spec_fn(usize) -> bool {
    |i: usize| regex_finds(pattern, lines[i as int]@)
}

/// The numbers of the lines that hold a match, in order.
pub open spec fn matching_line_numbers(pattern: Seq<char>, lines: Seq<String>) -> Seq<usize> {
    line_numbers(lines.len()).filter(line_matches(pattern, lines))
}

/// Whether a numbered line lies at most `ctx` lines away from line `tag`.
pub open spec fn within(tag: usize, ctx: usize) -> spec_fn((usize, String)) -> bool {
    |e: (usize, String)| tag - ctx <= e.0 <= tag + ctx
}

/// The numbered lines at most `ctx` lines away from line `tag`, in order.
pub open spec fn context_of(lines: Seq<String>, tag: usize, ctx: usize) -> Seq<(usize, String)> {
    numbered(lines).filter(within(tag, ctx))
}

/// For every matching line, in order, the numbered lines around it.
pub open spec fn grep_context(pattern: Seq<char>, lines: Seq<String>, ctx: usize) -> Seq<
    Seq<(usize, String)>,
> {
    matching_line_numbers(pattern, lines).map_values(|t: usize| context_of(lines, t, ctx))
}

/// Which lines match, and what each match's context holds, in terms of line
/// numbers: a line's number is among the matching ones exactly when the
/// line holds a match; the context of the `j`-th match holds every line
/// (with its number) at most `ctx` lines away from it, and nothing else.
pub proof fn lemma_context_is_the_window(pattern: Seq<char>, lines: Seq<String>, ctx: usize)
    requires
        lines.len() <= usize::MAX,
    ensures
        forall|i: int|
            0 <= i < lines.len() ==> (#[trigger] matching_line_numbers(pattern, lines).contains(
                i as usize,
            ) <==> regex_finds(pattern, lines[i]@)),
        forall|k: int|
            0 <= k < matching_line_numbers(pattern, lines).len() ==> (#[trigger] matching_line_numbers(
                pattern,
                lines,
            )[k]) < lines.len(),
        grep_context(pattern, lines, ctx).len() == matching_line_numbers(pattern, lines).len(),
        forall|j: int, i: int|
            0 <= j < grep_context(pattern, lines, ctx).len() && 0 <= i < lines.len() && (
            matching_line_numbers(pattern, lines)[j] - ctx <= i <= matching_line_numbers(
                pattern,
                lines,
            )[j] + ctx) ==> #[trigger] grep_context(pattern, lines, ctx)[j].contains(
                (i as usize, #[trigger] lines[i]),
            ),
        forall|j: int, e: (usize, String)|
            0 <= j < grep_context(pattern, lines, ctx).len() && #[trigger] grep_context(
                pattern,
                lines,
                ctx,
            )[j].contains(e) ==> e.0 < lines.len() && e.1 == lines[e.0 as int]
                && matching_line_numbers(pattern, lines)[j] - ctx <= e.0
                <= matching_line_numbers(pattern, lines)[j] + ctx,
{
    let all = line_numbers(lines.len());
    let pred = line_matches(pattern, lines);
    let tags = matching_line_numbers(pattern, lines);
    assert forall|i: int| 0 <= i < lines.len() implies (#[trigger] tags.contains(i as usize)
        <==> regex_finds(pattern, lines[i]@)) by {
        assert(all[i] == i as usize);
        if regex_finds(pattern, lines[i]@) {
            all.lemma_filter_contains(pred, i);
        }
        if tags.contains(i as usize) {
            let k = choose|k: int| 0 <= k < tags.len() && tags[k] == i as usize;
            all.lemma_filter_pred(pred, k);
        }
    }
    assert forall|k: int| 0 <= k < tags.len() implies (#[trigger] tags[k]) < lines.len() by {
        assert(tags.contains(tags[k]));
        all.lemma_filter_contains_rev(pred, tags[k]);
    }
    let nl = numbered(lines);
    assert forall|j: int, i: int|
        0 <= j < grep_context(pattern, lines, ctx).len() && 0 <= i < lines.len() && (tags[j] - ctx
            <= i <= tags[j] + ctx) implies #[trigger] grep_context(pattern, lines, ctx)[j].contains(
        (i as usize, #[trigger] lines[i]),
    ) by {
        assert(grep_context(pattern, lines, ctx)[j] == context_of(lines, tags[j], ctx));
        assert(nl[i] == (i as usize, lines[i]));
        nl.lemma_filter_contains(within(tags[j], ctx), i);
    }
    assert forall|j: int, e: (usize, String)|
        0 <= j < grep_context(pattern, lines, ctx).len() && #[trigger] grep_context(
            pattern,
            lines,
            ctx,
        )[j].contains(e) implies e.0 < lines.len() && e.1 == lines[e.0 as int] && tags[j] - ctx
        <= e.0 <= tags[j] + ctx by {
        let w = within(tags[j], ctx);
        let f = nl.filter(w);
        assert(grep_context(pattern, lines, ctx)[j] == f);
        let k = choose|k: int| 0 <= k < f.len() && f[k] == e;
        nl.lemma_filter_pred(w, k);
        nl.lemma_filter_contains_rev(w, e);
        let m = choose|m: int| 0 <= m < nl.len() && nl[m] == e;
        assert(nl[m] == (m as usize, lines[m]));
    }
}

/// Whether `pattern` is a regular expression the regex crate accepts.
pub fn pattern_is_valid(pattern: &str) -> (ok: bool)
    ensures
        ok == regex_compiles(pattern@),
{
    Pattern::new(pattern).is_some()
}

/// Compiles `pattern` and returns, for each line that holds a match in
/// order, the numbered lines at most `ctx_lines` away from it; `None` when
/// the pattern does not compile.
pub fn process_lines(lines: &Vec<String>, pattern: &str, ctx_lines: usize) -> (ctx: Option<
    Vec<Vec<(usize, String)>>,
>)
    ensures
        ctx is None <==> !regex_compiles(pattern@),
        ctx matches Some(ctx) ==> ctx@.len() == grep_context(pattern@, lines@, ctx_lines).len(),
        ctx matches Some(ctx) ==> forall|j: int|
            0 <= j < ctx@.len() ==> (#[trigger] ctx@[j])@ == grep_context(
                pattern@,
                lines@,
                ctx_lines,
            )[j],
{
    match Pattern::new(pattern) {
        Some(re) => Some(context_lines(lines, &re, ctx_lines)),
        None => None,
    }
}

/// For each line that holds a match for `re`, in order, the numbered lines
/// at most `ctx_lines` away from it.
fn context_lines(lines: &Vec<String>, re: &Pattern, ctx_lines: usize) -> (ctx: Vec<
    Vec<(usize, String)>,
>)
    ensures
        ctx@.len() == grep_context(re@, lines@, ctx_lines).len(),
        forall|j: int|
            0 <= j < ctx@.len() ==> (#[trigger] ctx@[j])@ == grep_context(re@, lines@, ctx_lines)[j],
{
    let n = lines.len();
    let ghost all = line_numbers(n as nat);
    let ghost pred = line_matches(re@, lines@);
    let mut tags: Vec<usize> = Vec::new();
    let mut i: usize = 0;
    while i < n
        invariant
            n == lines@.len(),
            i <= n,
            all == line_numbers(n as nat),
            pred == line_matches(re@, lines@),
            tags@ == all.take(i as int).filter(pred),
        decreases n - i,
    {
        let found = re.finds_in(lines[i].as_str());
        proof {
            let next = all.take(i + 1);
            assert(next.drop_last() =~= all.take(i as int));
            assert(next.last() == i);
            reveal_with_fuel(Seq::<_>::filter, 1);
        }
        if found {
            tags.push(i);
        }
        i += 1;
    }
    assert(all.take(n as int) =~= all);

    let mut ctx: Vec<Vec<(usize, String)>> = Vec::new();
    if tags.len() == 0 {
        return ctx;
    }
    let ghost numbered_lines = numbered(lines@);
    let mut j: usize = 0;
    while j < tags.len()
        invariant
            n == lines@.len(),
            numbered_lines == numbered(lines@),
            tags@ == matching_line_numbers(re@, lines@),
            j <= tags@.len(),
            ctx@.len() == j,
            forall|k: int|
                0 <= k < j ==> (#[trigger] ctx@[k])@ == context_of(lines@, tags@[k], ctx_lines),
        decreases tags@.len() - j,
    {
        let tag = tags[j];
        let lower_bound = tag.saturating_sub(ctx_lines);
        let upper_bound = tag.saturating_add(ctx_lines);
        let ghost w = within(tag, ctx_lines);
        let mut local_ctx: Vec<(usize, String)> = Vec::new();
        let mut i: usize = 0;
        while i < n
            invariant
                n == lines@.len(),
                i <= n,
                numbered_lines == numbered(lines@),
                w == within(tag, ctx_lines),
                lower_bound == (if tag >= ctx_lines { tag - ctx_lines } else { 0 }),
                upper_bound == (if tag + ctx_lines <= usize::MAX { tag + ctx_lines } else {
                    usize::MAX as int
                }),
                local_ctx@ == numbered_lines.take(i as int).filter(w),
            decreases n - i,
        {
            let line = lines[i].clone();
            proof {
                let next = numbered_lines.take(i + 1);
                assert(next.drop_last() =~= numbered_lines.take(i as int));
                assert(next.last() == (i, lines@[i as int]));
                reveal_with_fuel(Seq::<_>::filter, 1);
            }
            if (i >= lower_bound) && (i <= upper_bound) {
                local_ctx.push((i, line));
            }
            i += 1;
        }
        assert(numbered_lines.take(n as int) =~= numbered_lines);
        ctx.push(local_ctx);
        j += 1;
    }
    ctx
}

} // verus!
