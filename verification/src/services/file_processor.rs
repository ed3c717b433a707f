//! Finding requirement annotations in the text of a source file.
use vstd::prelude::*;
use crate::models::annotation::{AnnotationPattern, RequirementAnnotation};
use crate::models::error::SddNavigatorError;
use crate::paths::{extension_of_name, file_name_of, opt_view, path_extension};
use crate::services::regex_pattern::{
    compile_regex,
    first_groups,
    regex_compiles,
    regex_error_text,
    regex_first_groups,
    CompiledPattern,
};
use crate::text::{
    copy_str,
    decimal,
    decimal_string,
    contains_seq,
    join,
    join_strings,
    lines_of,
    occurs_at,
    split_lines,
    str_eq,
    views,
};

verus! {

// ---------------------------------------------------------------------------
// Context of an annotation.
// ---------------------------------------------------------------------------

/// One line of context: `>>> ` for the annotated line, four spaces for the
/// others, then the 1-based line number, ` | ` and the line.
pub open spec fn context_line(number: nat, line: Seq<char>, marked: bool) -> Seq<char> {
    (if marked {
        ">>> "@
    } else {
        "    "@
    }) + decimal(number) + " | "@ + line
}

/// The first line shown around line `n` (0-based): two lines before it.
pub open spec fn context_start(n: int) -> int {
    if n >= 2 {
        n - 2
    } else {
        0
    }
}

/// One past the last line shown around line `n`: two lines after it, cut
/// at the end of the text.
pub open spec fn context_end(count: int, n: int) -> int {
    if n + 3 < count {
        n + 3
    } else {
        count
    }
}

/// The context of line `n` (0-based) of `lines`: the lines from two before
/// to two after it, each rendered by `context_line`, joined by newlines.
pub open spec fn context_text(lines: Seq<Seq<char>>, n: int) -> Seq<char> {
    let start = context_start(n);
    let end = context_end(lines.len() as int, n);
    join(
        Seq::new(
            (end - start) as nat,
            |k: int| context_line((start + k + 1) as nat, lines[start + k], start + k == n),
        ),
        "\n"@,
    )
}

fn render_context_line(number: usize, line: &str, marked: bool) -> (r: String)
    ensures
        r@ == context_line(number as nat, line@, marked),
{
    let mut r = if marked {
        copy_str(">>> ")
    } else {
        copy_str("    ")
    };
    let digits = decimal_string(number as u64);
    r.append(digits.as_str());
    r.append(" | ");
    r.append(line);
    r
}

fn context_of_lines(lines: &Vec<String>, line_num: usize) -> (r: String)
    requires
        context_start(line_num as int) <= lines@.len(),
    ensures
        r@ == context_text(views(lines@), line_num as int),
{
    let start = if line_num >= 2 {
        line_num - 2
    } else {
        0
    };
    let end = if line_num < lines.len() && lines.len() - line_num > 3 {
        line_num + 3
    } else {
        lines.len()
    };
    let ghost want = Seq::new(
        (end - start) as nat,
        |k: int|
            context_line(
                (start + k + 1) as nat,
                views(lines@)[start + k],
                start + k == line_num,
            ),
    );
    let mut parts: Vec<String> = Vec::new();
    let mut i = start;
    while i < end
        invariant
            start <= i <= end <= lines@.len(),
            end - start == want.len(),
            want == Seq::new(
                (end - start) as nat,
                |k: int|
                    context_line(
                        (start + k + 1) as nat,
                        views(lines@)[start + k],
                        start + k == line_num,
                    ),
            ),
            views(parts@) == want.take(i - start),
        decreases end - i,
    {
        let part = render_context_line(i + 1, lines[i].as_str(), i == line_num);
        let ghost before = views(parts@);
        parts.push(part);
        assert(views(parts@) == before.push(part@));
        assert(want.take(i + 1 - start) == want.take(i - start).push(want[i - start]));
        i = i + 1;
    }
    assert(want.take(end - start) == want);
    join_strings(&parts, "\n")
}

/// The lines around line `line_num` (0-based) of `content`, the annotated
/// one marked, as an annotation's context shows them.
pub fn extract_context(content: &str, line_num: usize) -> (r: String)
    requires
        context_start(line_num as int) <= lines_of(content@).len(),
        line_num + 3 <= usize::MAX,
    ensures
        r@ == context_text(lines_of(content@), line_num as int),
{
    let lines = split_lines(content);
    context_of_lines(&lines, line_num)
}

// ---------------------------------------------------------------------------
// Annotations of a file.
// ---------------------------------------------------------------------------

/// The present entries of a sequence of options, in order.
pub open spec fn somes(s: Seq<Option<Seq<char>>>) -> Seq<Seq<char>>
    decreases s.len(),
{
    if s.len() == 0 {
        seq![]
    } else {
        match s.last() {
            Some(x) => somes(s.drop_last()).push(x),
            None => somes(s.drop_last()),
        }
    }
}

/// What the library records of an annotation found in a text: the
/// requirement id, the 1-based line number, the line, and its context.
pub type FoundAnnotation = (Seq<char>, nat, Seq<char>, Option<Seq<char>>);

/// The annotations on line `i` (0-based) of `lines`: one per match of the
/// pattern whose capture group 1 took part, in match order.
pub open spec fn line_annotations(pattern: Seq<char>, lines: Seq<Seq<char>>, i: int) -> Seq<
    FoundAnnotation,
> {
    somes(regex_first_groups(pattern, lines[i])).map_values(
        |m: Seq<char>| (m, (i + 1) as nat, lines[i], Some(context_text(lines, i))),
    )
}

/// The annotations on the first `k` lines, line by line.
pub open spec fn annotations_upto(pattern: Seq<char>, lines: Seq<Seq<char>>, k: int) -> Seq<
    FoundAnnotation,
>
    decreases k,
{
    if k <= 0 {
        seq![]
    } else {
        annotations_upto(pattern, lines, k - 1) + line_annotations(pattern, lines, k - 1)
    }
}

/// The annotations that `pattern` finds in a text.
pub open spec fn found_annotations(pattern: Seq<char>, content: Seq<char>) -> Seq<FoundAnnotation> {
    annotations_upto(pattern, lines_of(content), lines_of(content).len() as int)
}

/// An annotation found on line `n` (1-based) of `lines` records that line
/// and its context.
pub open spec fn points_at_its_line(f: FoundAnnotation, lines: Seq<Seq<char>>) -> bool {
    &&& 1 <= f.1 <= lines.len()
    &&& f.2 == lines[f.1 - 1]
    &&& f.3 == Some(context_text(lines, f.1 - 1))
}

proof fn lemma_upto_points(pattern: Seq<char>, lines: Seq<Seq<char>>, j: int)
    requires
        0 <= j <= lines.len(),
    ensures
        forall|k: int|
            0 <= k < annotations_upto(pattern, lines, j).len() ==> points_at_its_line(
                #[trigger] annotations_upto(pattern, lines, j)[k],
                lines,
            ),
    decreases j,
{
    if j > 0 {
        lemma_upto_points(pattern, lines, j - 1);
        let before = annotations_upto(pattern, lines, j - 1);
        let here = line_annotations(pattern, lines, j - 1);
        assert(annotations_upto(pattern, lines, j) == before + here);
        assert forall|k: int| 0 <= k < here.len() implies points_at_its_line(
            #[trigger] here[k],
            lines,
        ) by {
            let g = somes(regex_first_groups(pattern, lines[j - 1]));
            assert(here[k] == (g[k], j as nat, lines[j - 1], Some(context_text(lines, j - 1))));
        }
        assert forall|k: int|
            0 <= k < annotations_upto(pattern, lines, j).len() implies points_at_its_line(
            #[trigger] annotations_upto(pattern, lines, j)[k],
            lines,
        ) by {
            if k < before.len() {
                assert(annotations_upto(pattern, lines, j)[k] == before[k]);
            } else {
                assert(annotations_upto(pattern, lines, j)[k] == here[k - before.len()]);
            }
        }
    }
}

/// Law: every annotation found in a text lies on one of its lines, and
/// records that line (numbered from 1) and the context around it.
pub proof fn law_annotations_point_at_their_lines(pattern: Seq<char>, content: Seq<char>)
    ensures
        forall|k: int|
            0 <= k < found_annotations(pattern, content).len() ==> points_at_its_line(
                #[trigger] found_annotations(pattern, content)[k],
                lines_of(content),
            ),
{
    lemma_upto_points(pattern, lines_of(content), lines_of(content).len() as int);
}

proof fn lemma_join_holds_part(parts: Seq<Seq<char>>, sep: Seq<char>, k: int)
    requires
        0 <= k < parts.len(),
    ensures
        contains_seq(join(parts, sep), parts[k]),
    decreases parts.len(),
{
    let j = join(parts, sep);
    if parts.len() == 1 {
        assert(j.subrange(0, parts[0].len() as int) =~= parts[0]);
        assert(occurs_at(j, parts[k], 0));
    } else if k == parts.len() - 1 {
        let front = join(parts.drop_last(), sep) + sep;
        assert(j == front + parts.last());
        assert(j.subrange(front.len() as int, j.len() as int) =~= parts.last());
        assert(occurs_at(j, parts[k], front.len() as int));
    } else {
        let d = parts.drop_last();
        assert(d[k] == parts[k]);
        lemma_join_holds_part(d, sep, k);
        let jd = join(d, sep);
        let i = choose|i: int| occurs_at(jd, parts[k], i);
        assert(j == jd + (sep + parts.last()));
        assert(j.subrange(i, i + parts[k].len()) =~= jd.subrange(i, i + parts[k].len()));
        assert(occurs_at(j, parts[k], i));
    }
}

/// Law: the context of line `n` (0-based) shows that line marked with
/// `>>> `, its full 1-based line number in decimal, ` | ` and the line
/// itself, whatever the number.
pub proof fn law_context_marks_its_line(lines: Seq<Seq<char>>, n: int)
    requires
        0 <= n < lines.len(),
    ensures
        contains_seq(context_text(lines, n), ">>> "@ + decimal((n + 1) as nat) + " | "@ + lines[n]),
{
    let start = context_start(n);
    let end = context_end(lines.len() as int, n);
    let parts = Seq::new(
        (end - start) as nat,
        |k: int| context_line((start + k + 1) as nat, lines[start + k], start + k == n),
    );
    assert(context_text(lines, n) == join(parts, "\n"@));
    let k = n - start;
    assert(parts[k] == ">>> "@ + decimal((n + 1) as nat) + " | "@ + lines[n]);
    lemma_join_holds_part(parts, "\n"@, k);
}

/// Law: every annotation found records a context that shows its own line,
/// marked, under its full 1-based line number.
pub proof fn law_found_context_shows_line_number(pattern: Seq<char>, content: Seq<char>, k: int)
    requires
        0 <= k < found_annotations(pattern, content).len(),
    ensures
        ({
            let f = found_annotations(pattern, content)[k];
            f.3 matches Some(ctx) && contains_seq(ctx, ">>> "@ + decimal(f.1) + " | "@ + f.2)
        }),
{
    law_annotations_point_at_their_lines(pattern, content);
    let f = found_annotations(pattern, content)[k];
    assert(points_at_its_line(f, lines_of(content)));
    law_context_marks_its_line(lines_of(content), f.1 - 1);
}

/// What the library records of an annotation (see `FoundAnnotation`).
pub open spec fn annotation_facts(a: RequirementAnnotation) -> FoundAnnotation {
    (a.requirement_id@, a.line_number as nat, a.content@, opt_view(a.context))
}

/// The extensions of source files that the processor reads.
pub open spec fn supported_extension(e: Seq<char>) -> bool {
    ||| e == "rs"@
    ||| e == "js"@
    ||| e == "ts"@
    ||| e == "java"@
    ||| e == "py"@
    ||| e == "cpp"@
    ||| e == "c"@
    ||| e == "h"@
    ||| e == "hpp"@
    ||| e == "cc"@
    ||| e == "cxx"@
}

/// The annotations on line `line_index` (0-based) of `lines`, given the
/// capture group 1 of each match of the pattern on that line (`None` where
/// the group took no part in a match): one per present group, in order,
/// each with the 1-based line number, the line, its context, and a fresh id
/// and the current time.
pub fn annotations_of_line(
    file_path: &str,
    lines: &Vec<String>,
    line_index: usize,
    groups: &Vec<Option<String>>,
) -> (r: Vec<RequirementAnnotation>)
    requires
        line_index < lines@.len(),
    ensures
        r@.map_values(|a: RequirementAnnotation| annotation_facts(a)) == somes(
            groups@.map_values(|o: Option<String>| opt_view(o)),
        ).map_values(
            |x: Seq<char>|
                (
                    x,
                    (line_index + 1) as nat,
                    views(lines@)[line_index as int],
                    Some(context_text(views(lines@), line_index as int)),
                ),
        ),
        forall|k: int| 0 <= k < r@.len() ==> #[trigger] r@[k].file_path@ == file_path@,
{
    let ghost ls = views(lines@);
    let ghost i = line_index as int;
    let ghost gs = groups@.map_values(|o: Option<String>| opt_view(o));
    let ghost ctx = context_text(ls, i);
    let mut result: Vec<RequirementAnnotation> = Vec::new();
    let n = lines.len();
    let m = groups.len();
    let mut j: usize = 0;
    assert(gs.take(0) == Seq::<Option<Seq<char>>>::empty());
    while j < m
        invariant
            ls == views(lines@),
            i == line_index,
            n == lines@.len(),
            line_index < n,
            m == groups@.len(),
            gs == groups@.map_values(|o: Option<String>| opt_view(o)),
            j <= m,
            ctx == context_text(ls, i),
            result@.map_values(|a: RequirementAnnotation| annotation_facts(a)) == somes(
                gs.take(j as int),
            ).map_values(|x: Seq<char>| (x, (i + 1) as nat, ls[i], Some(ctx))),
            forall|k: int| 0 <= k < result@.len() ==> #[trigger] result@[k].file_path@ == file_path@,
        decreases m - j,
    {
        assert(gs.take(j + 1).drop_last() == gs.take(j as int));
        match &groups[j] {
            Some(id) => {
                let context = context_of_lines(lines, line_index);
                let a = RequirementAnnotation::new(
                    id.clone(),
                    copy_str(file_path),
                    line_index + 1,
                    lines[line_index].clone(),
                    Some(context),
                );
                let ghost before = result@;
                result.push(a);
                assert(result@.map_values(|a: RequirementAnnotation| annotation_facts(a))
                    == before.map_values(|a: RequirementAnnotation| annotation_facts(a)).push(
                    annotation_facts(a),
                ));
            },
            None => {},
        }
        j = j + 1;
    }
    assert(gs.take(m as int) == gs);
    result
}

/// Finds annotations with a regular expression whose first capture group
/// is the requirement id.
pub struct DefaultFileProcessor {
    pattern: AnnotationPattern,
    regex: CompiledPattern,
}

impl DefaultFileProcessor {
    #[verifier::type_invariant]
    spec fn compiled_from_pattern(self) -> bool {
        self.regex@ == self.pattern.pattern@
    }

    /// The pattern this processor searches for.
    pub closed spec fn source(&self) -> Seq<char> {
        self.pattern.pattern@
    }

    /// A processor for `pattern`; fails with a `Regex` error when the
    /// pattern does not compile.
    pub fn new(pattern: AnnotationPattern) -> (r: Result<Self, SddNavigatorError>)
        ensures
            r is Ok <==> regex_compiles(pattern.pattern@),
            r matches Ok(p) ==> p.source() == pattern.pattern@,
            r matches Err(e) ==> e is Regex,
    {
        match compile_regex(pattern.pattern.as_str()) {
            Ok(regex) => Ok(DefaultFileProcessor { pattern, regex }),
            Err(e) => Err(SddNavigatorError::Regex(regex_error_text(&e))),
        }
    }

    /// Whether a path names a source file this processor reads, judged by
    /// the extension of its final component.
    pub fn supports_file(&self, file_path: &str) -> (r: bool)
        ensures
            r == match path_extension(file_path@) {
                Some(e) => supported_extension(e),
                None => false,
            },
    {
        match file_name_of(file_path) {
            None => false,
            Some(name) => match extension_of_name(name.as_str()) {
                None => false,
                Some(e) => {
                    let e = e.as_str();
                    str_eq(e, "rs") || str_eq(e, "js") || str_eq(e, "ts") || str_eq(e, "java")
                        || str_eq(e, "py") || str_eq(e, "cpp") || str_eq(e, "c") || str_eq(
                        e,
                        "h",
                    ) || str_eq(e, "hpp") || str_eq(e, "cc") || str_eq(e, "cxx")
                },
            },
        }
    }

    /// The annotations in `content`, the text of the file at `file_path`:
    /// for each line in order, one per match of the pattern, each with a
    /// fresh id and the current time.
    pub fn process_file(&self, file_path: &str, content: &str) -> (r: Vec<RequirementAnnotation>)
        ensures
            r@.map_values(|a: RequirementAnnotation| annotation_facts(a)) == found_annotations(
                self.source(),
                content@,
            ),
            forall|k: int| 0 <= k < r@.len() ==> #[trigger] r@[k].file_path@ == file_path@,
    {
        proof {
            use_type_invariant(self);
        }
        let lines = split_lines(content);
        let ghost ls = views(lines@);
        let ghost pattern = self.source();
        let mut result: Vec<RequirementAnnotation> = Vec::new();
        let n = lines.len();
        let mut i: usize = 0;
        while i < n
            invariant
                n == lines@.len(),
                ls == views(lines@),
                ls == lines_of(content@),
                pattern == self.source(),
                self.regex@ == pattern,
                i <= n,
                result@.map_values(|a: RequirementAnnotation| annotation_facts(a))
                    == annotations_upto(pattern, ls, i as int),
                forall|k: int| 0 <= k < result@.len() ==> #[trigger] result@[k].file_path@ == file_path@,
            decreases n - i,
        {
            let groups = first_groups(&self.regex, lines[i].as_str());
            let mut found = annotations_of_line(file_path, &lines, i, &groups);
            let ghost before = result@;
            let ghost added = found@;
            result.append(&mut found);
            proof {
                assert(result@ == before + added);
                assert(result@.map_values(|a: RequirementAnnotation| annotation_facts(a)) == before.map_values(
                    |a: RequirementAnnotation| annotation_facts(a),
                ) + added.map_values(|a: RequirementAnnotation| annotation_facts(a)));
                assert forall|k: int| 0 <= k < result@.len() implies #[trigger] result@[k].file_path@
                    == file_path@ by {
                    if k >= before.len() {
                        assert(result@[k] == added[k - before.len()]);
                    } else {
                        assert(result@[k] == before[k]);
                    }
                }
            }
            i = i + 1;
        }
        result
    }
}

} // verus!
