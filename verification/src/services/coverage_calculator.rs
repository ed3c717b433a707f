//! Coverage of requirements by the annotations of a scan.
use vstd::prelude::*;
use crate::models::annotation::RequirementAnnotation;
use crate::models::coverage::{
    covered_count,
    recommendations_for,
    uncovered_keys,
    CoverageMetrics,
    CoverageReport,
    FileCoverage,
    RequirementFiles,
};
use crate::models::error::SddNavigatorError;
use crate::text::views;

verus! {

/// The distinct entries of `s`, each at its first occurrence.
pub open spec fn dedup(s: Seq<Seq<char>>) -> Seq<Seq<char>>
    decreases s.len(),
{
    if s.len() == 0 {
        seq![]
    } else {
        let d = dedup(s.drop_last());
        if d.contains(s.last()) {
            d
        } else {
            d.push(s.last())
        }
    }
}

/// The requirement ids of the annotations, in order.
pub open spec fn requirement_ids(anns: Seq<RequirementAnnotation>) -> Seq<Seq<char>> {
    anns.map_values(|a: RequirementAnnotation| a.requirement_id@)
}

/// The file paths of the annotations, in order.
pub open spec fn file_paths(anns: Seq<RequirementAnnotation>) -> Seq<Seq<char>> {
    anns.map_values(|a: RequirementAnnotation| a.file_path@)
}

/// The files of the annotations of requirement `id`, one per annotation, in
/// order.
pub open spec fn files_of(anns: Seq<RequirementAnnotation>, id: Seq<char>) -> Seq<Seq<char>>
    decreases anns.len(),
{
    if anns.len() == 0 {
        seq![]
    } else if anns.last().requirement_id@ == id {
        files_of(anns.drop_last(), id).push(anns.last().file_path@)
    } else {
        files_of(anns.drop_last(), id)
    }
}

/// The requirement ids of the annotations in file `path`, one per
/// annotation, in order.
pub open spec fn requirements_in(anns: Seq<RequirementAnnotation>, path: Seq<char>) -> Seq<
    Seq<char>,
>
    decreases anns.len(),
{
    if anns.len() == 0 {
        seq![]
    } else if anns.last().file_path@ == path {
        requirements_in(anns.drop_last(), path).push(anns.last().requirement_id@)
    } else {
        requirements_in(anns.drop_last(), path)
    }
}

/// `m` is the requirement map of `anns`: each distinct requirement id in
/// order of first appearance, with the files of its annotations.
pub open spec fn is_requirement_map(m: Seq<(String, Vec<String>)>, anns: Seq<RequirementAnnotation>) -> bool {
    &&& m.map_values(|e: (String, Vec<String>)| e.0@) == dedup(requirement_ids(anns))
    &&& forall|k: int| 0 <= k < m.len() ==> views(#[trigger] m[k].1@) == files_of(anns, m[k].0@)
}

/// `fc` is the file coverage of `anns`: each distinct file in order of
/// first appearance, with its distinct requirement ids in order of first
/// appearance, and their number.
pub open spec fn is_file_coverage(fc: Seq<FileCoverage>, anns: Seq<RequirementAnnotation>) -> bool {
    &&& fc.map_values(|f: FileCoverage| f.file_path@) == dedup(file_paths(anns))
    &&& forall|k: int|
        0 <= k < fc.len() ==> views(#[trigger] fc[k].requirements@) == dedup(
            requirements_in(anns, fc[k].file_path@),
        )
    &&& forall|k: int| 0 <= k < fc.len() ==> #[trigger] fc[k].requirement_count == fc[k].requirements@.len()
}

/// Finds `x` among the views of `v`.
fn position_of(v: &Vec<String>, x: &String) -> (r: Option<usize>)
    ensures
        match r {
            Some(j) => j < v@.len() && v@[j as int]@ == x@,
            None => !views(v@).contains(x@),
        },
{
    let n = v.len();
    let mut j: usize = 0;
    while j < n
        invariant
            n == v@.len(),
            j <= n,
            forall|k: int| 0 <= k < j ==> v@[k]@ != x@,
        decreases n - j,
    {
        if v[j] == *x {
            return Some(j);
        }
        j = j + 1;
    }
    assert(!views(v@).contains(x@)) by {
        if views(v@).contains(x@) {
            let k = choose|k: int| 0 <= k < views(v@).len() && views(v@)[k] == x@;
            assert(v@[k]@ == x@);
        }
    }
    None
}

/// Finds the entry of requirement `x` in a requirement map.
fn key_position(m: &RequirementFiles, x: &String) -> (r: Option<usize>)
    ensures
        match r {
            Some(j) => j < m@.len() && m@[j as int].0@ == x@,
            None => !m@.map_values(|e: (String, Vec<String>)| e.0@).contains(x@),
        },
{
    let n = m.len();
    let mut j: usize = 0;
    while j < n
        invariant
            n == m@.len(),
            j <= n,
            forall|k: int| 0 <= k < j ==> m@[k].0@ != x@,
        decreases n - j,
    {
        if m[j].0 == *x {
            return Some(j);
        }
        j = j + 1;
    }
    assert(!m@.map_values(|e: (String, Vec<String>)| e.0@).contains(x@)) by {
        let ks = m@.map_values(|e: (String, Vec<String>)| e.0@);
        if ks.contains(x@) {
            let k = choose|k: int| 0 <= k < ks.len() && ks[k] == x@;
            assert(m@[k].0@ == x@);
        }
    }
    None
}

/// Finds the entry of file `x` in a file coverage list.
fn file_position(fc: &Vec<FileCoverage>, x: &String) -> (r: Option<usize>)
    ensures
        match r {
            Some(j) => j < fc@.len() && fc@[j as int].file_path@ == x@,
            None => !fc@.map_values(|f: FileCoverage| f.file_path@).contains(x@),
        },
{
    let n = fc.len();
    let mut j: usize = 0;
    while j < n
        invariant
            n == fc@.len(),
            j <= n,
            forall|k: int| 0 <= k < j ==> fc@[k].file_path@ != x@,
        decreases n - j,
    {
        if fc[j].file_path == *x {
            return Some(j);
        }
        j = j + 1;
    }
    assert(!fc@.map_values(|f: FileCoverage| f.file_path@).contains(x@)) by {
        let ks = fc@.map_values(|f: FileCoverage| f.file_path@);
        if ks.contains(x@) {
            let k = choose|k: int| 0 <= k < ks.len() && ks[k] == x@;
            assert(fc@[k].file_path@ == x@);
        }
    }
    None
}

/// The requirement map of the annotations.
pub fn requirement_map(annotations: &[RequirementAnnotation]) -> (r: RequirementFiles)
    ensures
        is_requirement_map(r@, annotations@),
{
    let n = annotations.len();
    let mut m: RequirementFiles = Vec::new();
    let mut i: usize = 0;
    assert(requirement_ids(annotations@.take(0)) == Seq::<Seq<char>>::empty());
    assert(m@.map_values(|e: (String, Vec<String>)| e.0@) == Seq::<Seq<char>>::empty());
    while i < n
        invariant
            n == annotations@.len(),
            i <= n,
            is_requirement_map(m@, annotations@.take(i as int)),
        decreases n - i,
    {
        let a = &annotations[i];
        let ghost pre = annotations@.take(i as int);
        let ghost post = annotations@.take(i + 1);
        assert(post.drop_last() == pre);
        assert(post.last() == annotations@[i as int]);
        assert(requirement_ids(post).drop_last() == requirement_ids(pre));
        let ghost old_m = m@;
        match key_position(&m, &a.requirement_id) {
            Some(j) => {
                m[j].1.push(a.file_path.clone());
                assert(m@.map_values(|e: (String, Vec<String>)| e.0@) == old_m.map_values(
                    |e: (String, Vec<String>)| e.0@,
                ));
                assert(dedup(requirement_ids(pre)).contains(a.requirement_id@)) by {
                    assert(old_m.map_values(|e: (String, Vec<String>)| e.0@)[j as int]
                        == a.requirement_id@);
                }
                proof {
                    lemma_dedup_distinct(requirement_ids(pre));
                }
                assert forall|k: int| 0 <= k < m@.len() implies views(#[trigger] m@[k].1@)
                    == files_of(post, m@[k].0@) by {
                    let ks = old_m.map_values(|e: (String, Vec<String>)| e.0@);
                    if k == j {
                        assert(views(m@[k].1@) == views(old_m[k].1@).push(a.file_path@));
                        assert(files_of(post, m@[k].0@) == files_of(pre, m@[k].0@).push(
                            a.file_path@,
                        ));
                    } else {
                        assert(m@[k] == old_m[k]);
                        assert(ks[k] != ks[j as int]);
                        assert(files_of(post, m@[k].0@) == files_of(pre, m@[k].0@));
                    }
                }
            },
            None => {
                let mut files: Vec<String> = Vec::new();
                files.push(a.file_path.clone());
                m.push((a.requirement_id.clone(), files));
                assert(m@.map_values(|e: (String, Vec<String>)| e.0@) == old_m.map_values(
                    |e: (String, Vec<String>)| e.0@,
                ).push(a.requirement_id@));
                assert forall|k: int| 0 <= k < m@.len() implies views(#[trigger] m@[k].1@)
                    == files_of(post, m@[k].0@) by {
                    if k == old_m.len() {
                        assert(files_of(pre, a.requirement_id@).len() == 0) by {
                            lemma_files_of_absent(pre, a.requirement_id@);
                        }
                        assert(views(m@[k].1@) == seq![a.file_path@]);
                    } else {
                        assert(m@[k] == old_m[k]);
                        assert(m@[k].0@ != a.requirement_id@) by {
                            assert(old_m.map_values(|e: (String, Vec<String>)| e.0@)[k]
                                == old_m[k].0@);
                        }
                    }
                }
            },
        }
        i = i + 1;
    }
    assert(annotations@.take(n as int) == annotations@);
    m
}

/// The dedup of a sequence contains exactly its entries, each once.
pub proof fn lemma_dedup_contains(s: Seq<Seq<char>>, x: Seq<char>)
    ensures
        dedup(s).contains(x) <==> s.contains(x),
    decreases s.len(),
{
    if s.len() > 0 {
        let t = s.drop_last();
        let d = dedup(t);
        lemma_dedup_contains(t, x);
        if t.contains(x) {
            let k = choose|k: int| 0 <= k < t.len() && t[k] == x;
            assert(s[k] == x);
        }
        if s.contains(x) && x != s.last() {
            let k = choose|k: int| 0 <= k < s.len() && s[k] == x;
            assert(t[k] == x);
        }
        if !d.contains(s.last()) {
            let e = d.push(s.last());
            assert(e[d.len() as int] == s.last());
            if d.contains(x) {
                let k = choose|k: int| 0 <= k < d.len() && d[k] == x;
                assert(e[k] == x);
            }
            if e.contains(x) && x != s.last() {
                let k = choose|k: int| 0 <= k < e.len() && e[k] == x;
                assert(d[k] == x);
            }
        }
    }
}

/// The dedup of a sequence holds no entry twice.
pub proof fn lemma_dedup_distinct(s: Seq<Seq<char>>)
    ensures
        dedup(s).no_duplicates(),
    decreases s.len(),
{
    if s.len() > 0 {
        lemma_dedup_distinct(s.drop_last());
        let d = dedup(s.drop_last());
        if !d.contains(s.last()) {
            let e = d.push(s.last());
            assert forall|i: int, j: int| 0 <= i < e.len() && 0 <= j < e.len() && i != j implies e[i]
                != e[j] by {
                if i == d.len() {
                    assert(!d.contains(e[j]) || e[j] != e[i]);
                    if e[i] == e[j] {
                        assert(d[j] == s.last());
                    }
                } else if j == d.len() {
                    if e[i] == e[j] {
                        assert(d[i] == s.last());
                    }
                }
            }
        }
    }
}

/// An id that no annotation carries has no files.
proof fn lemma_files_of_absent(anns: Seq<RequirementAnnotation>, id: Seq<char>)
    requires
        !dedup(requirement_ids(anns)).contains(id),
    ensures
        files_of(anns, id).len() == 0,
    decreases anns.len(),
{
    if anns.len() > 0 {
        lemma_dedup_contains(requirement_ids(anns), id);
        lemma_dedup_contains(requirement_ids(anns.drop_last()), id);
        assert(requirement_ids(anns.drop_last()) == requirement_ids(anns).drop_last());
        assert(requirement_ids(anns).last() == anns.last().requirement_id@);
        if requirement_ids(anns.drop_last()).contains(id) {
            let k = choose|k: int|
                0 <= k < requirement_ids(anns.drop_last()).len() && requirement_ids(
                    anns.drop_last(),
                )[k] == id;
            assert(requirement_ids(anns)[k] == id);
        }
        lemma_files_of_absent(anns.drop_last(), id);
    }
}

/// A path that no annotation carries has no requirements.
proof fn lemma_requirements_in_absent(anns: Seq<RequirementAnnotation>, path: Seq<char>)
    requires
        !dedup(file_paths(anns)).contains(path),
    ensures
        requirements_in(anns, path).len() == 0,
    decreases anns.len(),
{
    if anns.len() > 0 {
        lemma_dedup_contains(file_paths(anns), path);
        lemma_dedup_contains(file_paths(anns.drop_last()), path);
        assert(file_paths(anns.drop_last()) == file_paths(anns).drop_last());
        assert(file_paths(anns).last() == anns.last().file_path@);
        if file_paths(anns.drop_last()).contains(path) {
            let k = choose|k: int|
                0 <= k < file_paths(anns.drop_last()).len() && file_paths(anns.drop_last())[k]
                    == path;
            assert(file_paths(anns)[k] == path);
        }
        lemma_requirements_in_absent(anns.drop_last(), path);
    }
}

/// Every requirement id that some annotation carries has a file.
proof fn lemma_files_of_present(anns: Seq<RequirementAnnotation>, id: Seq<char>)
    requires
        requirement_ids(anns).contains(id),
    ensures
        files_of(anns, id).len() > 0,
    decreases anns.len(),
{
    let t = anns.drop_last();
    if anns.last().requirement_id@ != id {
        let k = choose|k: int| 0 <= k < requirement_ids(anns).len() && requirement_ids(anns)[k] == id;
        assert(k != anns.len() - 1);
        assert(requirement_ids(t)[k] == id);
        lemma_files_of_present(t, id);
    }
}

/// The file coverage of the annotations.
pub fn file_coverage(annotations: &[RequirementAnnotation]) -> (r: Vec<FileCoverage>)
    ensures
        is_file_coverage(r@, annotations@),
{
    let n = annotations.len();
    let mut fc: Vec<FileCoverage> = Vec::new();
    let mut i: usize = 0;
    assert(file_paths(annotations@.take(0)) == Seq::<Seq<char>>::empty());
    assert(fc@.map_values(|f: FileCoverage| f.file_path@) == Seq::<Seq<char>>::empty());
    while i < n
        invariant
            n == annotations@.len(),
            i <= n,
            is_file_coverage(fc@, annotations@.take(i as int)),
        decreases n - i,
    {
        let a = &annotations[i];
        let ghost pre = annotations@.take(i as int);
        let ghost post = annotations@.take(i + 1);
        assert(post.drop_last() == pre);
        assert(post.last() == annotations@[i as int]);
        assert(file_paths(post).drop_last() == file_paths(pre));
        let ghost old_fc = fc@;
        let ghost ks = old_fc.map_values(|f: FileCoverage| f.file_path@);
        match file_position(&fc, &a.file_path) {
            Some(j) => {
                let ghost reqs = views(fc@[j as int].requirements@);
                let ghost rp = requirements_in(pre, a.file_path@);
                assert(requirements_in(post, a.file_path@) == rp.push(a.requirement_id@));
                assert(rp.push(a.requirement_id@).drop_last() == rp);
                assert(reqs == dedup(rp));
                match position_of(&fc[j].requirements, &a.requirement_id) {
                    Some(q) => {
                        assert(reqs[q as int] == a.requirement_id@);
                        assert(reqs.contains(a.requirement_id@));
                        assert(views(fc@[j as int].requirements@) == dedup(
                            requirements_in(post, a.file_path@),
                        ));
                    },
                    None => {
                        fc[j].requirements.push(a.requirement_id.clone());
                        let count = fc[j].requirements.len();
                        fc[j].requirement_count = count;
                        assert(views(fc@[j as int].requirements@) == reqs.push(a.requirement_id@));
                        assert(views(fc@[j as int].requirements@) == dedup(
                            requirements_in(post, a.file_path@),
                        ));
                    },
                }
                assert(fc@.map_values(|f: FileCoverage| f.file_path@) == ks);
                assert(dedup(file_paths(pre)).contains(a.file_path@)) by {
                    assert(ks[j as int] == a.file_path@);
                }
                proof {
                    lemma_dedup_distinct(file_paths(pre));
                }
                assert forall|k: int| 0 <= k < fc@.len() implies views(
                    #[trigger] fc@[k].requirements@,
                ) == dedup(requirements_in(post, fc@[k].file_path@)) by {
                    if k == j {
                    } else {
                        assert(fc@[k] == old_fc[k]);
                        assert(ks[k] != ks[j as int]);
                        assert(requirements_in(post, fc@[k].file_path@) == requirements_in(
                            pre,
                            fc@[k].file_path@,
                        ));
                    }
                }
                assert forall|k: int| 0 <= k < fc@.len() implies #[trigger] fc@[k].requirement_count
                    == fc@[k].requirements@.len() by {
                    if k != j {
                        assert(fc@[k] == old_fc[k]);
                    }
                }
            },
            None => {
                let mut reqs: Vec<String> = Vec::new();
                reqs.push(a.requirement_id.clone());
                fc.push(
                    FileCoverage {
                        file_path: a.file_path.clone(),
                        requirement_count: 1,
                        requirements: reqs,
                    },
                );
                assert(fc@.map_values(|f: FileCoverage| f.file_path@) == ks.push(a.file_path@));
                assert forall|k: int| 0 <= k < fc@.len() implies views(
                    #[trigger] fc@[k].requirements@,
                ) == dedup(requirements_in(post, fc@[k].file_path@)) by {
                    if k == old_fc.len() {
                        lemma_requirements_in_absent(pre, a.file_path@);
                        let r = requirements_in(post, a.file_path@);
                        assert(r == seq![a.requirement_id@]);
                        assert(r.drop_last() == Seq::<Seq<char>>::empty());
                        assert(dedup(r.drop_last()) == Seq::<Seq<char>>::empty());
                        assert(!Seq::<Seq<char>>::empty().contains(a.requirement_id@));
                        assert(dedup(r) == seq![a.requirement_id@]);
                        assert(views(fc@[k].requirements@) == seq![a.requirement_id@]);
                    } else {
                        assert(fc@[k] == old_fc[k]);
                        assert(ks[k] != a.file_path@);
                        assert(requirements_in(post, fc@[k].file_path@) == requirements_in(
                            pre,
                            fc@[k].file_path@,
                        ));
                    }
                }
                assert forall|k: int| 0 <= k < fc@.len() implies #[trigger] fc@[k].requirement_count
                    == fc@[k].requirements@.len() by {
                    if k != old_fc.len() {
                        assert(fc@[k] == old_fc[k]);
                    }
                }
            },
        }
        i = i + 1;
    }
    assert(annotations@.take(n as int) == annotations@);
    fc
}

/// Law: in the requirement map of any annotations, every requirement has at
/// least one file, so all of them count as covered and none as uncovered.
pub proof fn law_annotated_requirements_are_covered(
    m: Seq<(String, Vec<String>)>,
    anns: Seq<RequirementAnnotation>,
)
    requires
        is_requirement_map(m, anns),
    ensures
        covered_count(m) == m.len(),
        uncovered_keys(m).len() == 0,
    decreases m.len(),
{
    if m.len() > 0 {
        let ks = m.map_values(|e: (String, Vec<String>)| e.0@);
        let last = m.len() - 1;
        assert(views(m[last].1@) == files_of(anns, m[last].0@));
        assert(ks[last] == m[last].0@);
        lemma_dedup_contains(requirement_ids(anns), m[last].0@);
        assert(dedup(requirement_ids(anns)).contains(m[last].0@));
        lemma_files_of_present(anns, m[last].0@);
        assert(views(m[last].1@).len() == m[last].1@.len());
        lemma_prefix_covered(m.drop_last(), anns, m);
        lemma_prefix_all_covered(m.drop_last(), anns, m);
    }
}

proof fn lemma_prefix_covered(
    p: Seq<(String, Vec<String>)>,
    anns: Seq<RequirementAnnotation>,
    m: Seq<(String, Vec<String>)>,
)
    requires
        is_requirement_map(m, anns),
        p.len() <= m.len(),
        forall|k: int| 0 <= k < p.len() ==> p[k] == m[k],
    ensures
        forall|k: int| 0 <= k < p.len() ==> (#[trigger] p[k]).1@.len() > 0,
{
    assert forall|k: int| 0 <= k < p.len() implies (#[trigger] p[k]).1@.len() > 0 by {
        let ks = m.map_values(|e: (String, Vec<String>)| e.0@);
        assert(views(m[k].1@) == files_of(anns, m[k].0@));
        assert(ks[k] == m[k].0@);
        lemma_dedup_contains(requirement_ids(anns), m[k].0@);
        assert(dedup(requirement_ids(anns)).contains(m[k].0@));
        lemma_files_of_present(anns, m[k].0@);
        assert(views(m[k].1@).len() == m[k].1@.len());
    }
}

proof fn lemma_prefix_all_covered(
    p: Seq<(String, Vec<String>)>,
    anns: Seq<RequirementAnnotation>,
    m: Seq<(String, Vec<String>)>,
)
    requires
        forall|k: int| 0 <= k < p.len() ==> (#[trigger] p[k]).1@.len() > 0,
    ensures
        covered_count(p) == p.len(),
        uncovered_keys(p).len() == 0,
    decreases p.len(),
{
    if p.len() > 0 {
        assert(p.last() == p[p.len() - 1]);
        lemma_prefix_all_covered(p.drop_last(), anns, m);
    }
}

/// The (requirement id, file path) pairs that the annotations carry.
pub open spec fn annotation_pairs(anns: Seq<RequirementAnnotation>) -> Set<(Seq<char>, Seq<char>)> {
    Set::new(
        |p: (Seq<char>, Seq<char>)|
            exists|i: int|
                0 <= i < anns.len() && #[trigger] anns[i].requirement_id@ == p.0 && anns[i].file_path@
                    == p.1,
    )
}

/// The dedup of a sequence has as many entries as the sequence has
/// distinct ones, and the same ones.
proof fn lemma_dedup_set(s: Seq<Seq<char>>)
    ensures
        dedup(s).to_set() == s.to_set(),
        dedup(s).len() == s.to_set().len(),
{
    assert forall|x: Seq<char>| dedup(s).to_set().contains(x) <==> s.to_set().contains(x) by {
        lemma_dedup_contains(s, x);
    }
    assert(dedup(s).to_set() =~= s.to_set());
    lemma_dedup_distinct(s);
    dedup(s).unique_seq_to_set();
}

/// The distinct requirement ids, and the distinct files, are those of the
/// pairs.
proof fn lemma_ids_and_paths_of_pairs(anns: Seq<RequirementAnnotation>)
    ensures
        forall|x: Seq<char>|
            requirement_ids(anns).to_set().contains(x) <==> exists|f: Seq<char>|
                #[trigger] annotation_pairs(anns).contains((x, f)),
        forall|f: Seq<char>|
            file_paths(anns).to_set().contains(f) <==> exists|x: Seq<char>|
                #[trigger] annotation_pairs(anns).contains((x, f)),
{
    assert forall|x: Seq<char>|
        requirement_ids(anns).to_set().contains(x) implies exists|f: Seq<char>|
            #[trigger] annotation_pairs(anns).contains((x, f)) by {
        let i = choose|i: int| 0 <= i < requirement_ids(anns).len() && requirement_ids(anns)[i] == x;
        assert(anns[i].requirement_id@ == x);
        assert(annotation_pairs(anns).contains((x, anns[i].file_path@)));
    }
    assert forall|x: Seq<char>, f: Seq<char>|
        #[trigger] annotation_pairs(anns).contains((x, f)) implies requirement_ids(
        anns,
    ).to_set().contains(x) by {
        let i = choose|i: int|
            0 <= i < anns.len() && #[trigger] anns[i].requirement_id@ == x && anns[i].file_path@ == f;
        assert(requirement_ids(anns)[i] == x);
    }
    assert forall|f: Seq<char>|
        file_paths(anns).to_set().contains(f) implies exists|x: Seq<char>|
            #[trigger] annotation_pairs(anns).contains((x, f)) by {
        let i = choose|i: int| 0 <= i < file_paths(anns).len() && file_paths(anns)[i] == f;
        assert(anns[i].file_path@ == f);
        assert(annotation_pairs(anns).contains((anns[i].requirement_id@, f)));
    }
    assert forall|x: Seq<char>, f: Seq<char>|
        #[trigger] annotation_pairs(anns).contains((x, f)) implies file_paths(anns).to_set().contains(
        f,
    ) by {
        let i = choose|i: int|
            0 <= i < anns.len() && #[trigger] anns[i].requirement_id@ == x && anns[i].file_path@ == f;
        assert(file_paths(anns)[i] == f);
    }
}

/// The requirements annotated in file `path` are those paired with it.
proof fn lemma_requirements_in_pairs(anns: Seq<RequirementAnnotation>, path: Seq<char>)
    ensures
        forall|x: Seq<char>|
            requirements_in(anns, path).to_set().contains(x) <==> annotation_pairs(anns).contains(
                (x, path),
            ),
    decreases anns.len(),
{
    if anns.len() > 0 {
        let t = anns.drop_last();
        lemma_requirements_in_pairs(t, path);
        assert forall|x: Seq<char>|
            requirements_in(anns, path).to_set().contains(x) <==> annotation_pairs(anns).contains(
                (x, path),
            ) by {
            let r = requirements_in(anns, path);
            let rt = requirements_in(t, path);
            if annotation_pairs(anns).contains((x, path)) {
                let i = choose|i: int|
                    0 <= i < anns.len() && #[trigger] anns[i].requirement_id@ == x && anns[i].file_path@
                        == path;
                if i < t.len() {
                    assert(t[i] == anns[i]);
                    assert(t[i].requirement_id@ == x && t[i].file_path@ == path);
                    assert(annotation_pairs(t).contains((x, path)));
                    assert(rt.to_set().contains(x));
                    assert(rt.contains(x));
                    let k = choose|k: int| 0 <= k < rt.len() && rt[k] == x;
                    if anns.last().file_path@ == path {
                        assert(r == rt.push(anns.last().requirement_id@));
                        assert(r[k] == x);
                    } else {
                        assert(r == rt);
                    }
                    assert(r.contains(x));
                } else {
                    assert(r == rt.push(x));
                    assert(r[rt.len() as int] == x);
                }
            }
            if r.to_set().contains(x) {
                let k = choose|k: int| 0 <= k < r.len() && r[k] == x;
                if anns.last().file_path@ == path && k == rt.len() {
                    let i = anns.len() - 1;
                    assert(anns[i].requirement_id@ == x && anns[i].file_path@ == path);
                } else {
                    if anns.last().file_path@ == path {
                        assert(r == rt.push(anns.last().requirement_id@));
                    }
                    assert(rt[k] == x);
                    assert(rt.to_set().contains(x));
                    let i = choose|i: int|
                        0 <= i < t.len() && #[trigger] t[i].requirement_id@ == x && t[i].file_path@
                            == path;
                    assert(anns[i] == t[i]);
                }
            }
        }
    } else {
        assert forall|x: Seq<char>| !annotation_pairs(anns).contains((x, path)) by {}
    }
}

/// Two finite sets with the same members have the same size.
proof fn lemma_same_set<A>(a: Set<A>, b: Set<A>)
    requires
        forall|x: A| a.contains(x) <==> b.contains(x),
    ensures
        a == b,
        a.len() == b.len(),
{
    assert(a =~= b);
}

/// Law: what `calculate` gives depends only on the set of (requirement
/// id, file path) pairs of the annotations: reordering them, or repeating
/// some, changes neither the counts, nor the uncovered requirements, nor
/// which files are covered, nor any file's requirements and their number.
/// Only the order inside the lists may differ.
pub proof fn law_calculate_depends_on_pairs(
    m1: CoverageMetrics,
    m2: CoverageMetrics,
    scan_id: u128,
    a1: Seq<RequirementAnnotation>,
    a2: Seq<RequirementAnnotation>,
)
    requires
        metrics_of(m1, scan_id, a1),
        metrics_of(m2, scan_id, a2),
        annotation_pairs(a1) == annotation_pairs(a2),
    ensures
        m1.scan_id == m2.scan_id,
        m1.total_requirements == m2.total_requirements,
        m1.covered_requirements == m2.covered_requirements,
        m1.uncovered_requirements@ == m2.uncovered_requirements@,
        m1.file_coverage@.map_values(|f: FileCoverage| f.file_path@).to_set()
            == m2.file_coverage@.map_values(|f: FileCoverage| f.file_path@).to_set(),
        forall|i: int, j: int|
            0 <= i < m1.file_coverage@.len() && 0 <= j < m2.file_coverage@.len() && (
            #[trigger] m1.file_coverage@[i]).file_path@ == (#[trigger] m2.file_coverage@[j]).file_path@
                ==> m1.file_coverage@[i].requirement_count == m2.file_coverage@[j].requirement_count
                && views(m1.file_coverage@[i].requirements@).to_set() == views(
                m2.file_coverage@[j].requirements@,
            ).to_set(),
{
    lemma_ids_and_paths_of_pairs(a1);
    lemma_ids_and_paths_of_pairs(a2);
    lemma_dedup_set(requirement_ids(a1));
    lemma_dedup_set(requirement_ids(a2));
    lemma_dedup_set(file_paths(a1));
    lemma_dedup_set(file_paths(a2));
    // Same distinct requirement ids.
    assert forall|x: Seq<char>|
        requirement_ids(a1).to_set().contains(x) <==> requirement_ids(a2).to_set().contains(x) by {
        if requirement_ids(a1).to_set().contains(x) {
            let f = choose|f: Seq<char>| #[trigger] annotation_pairs(a1).contains((x, f));
            assert(annotation_pairs(a2).contains((x, f)));
        }
        if requirement_ids(a2).to_set().contains(x) {
            let f = choose|f: Seq<char>| #[trigger] annotation_pairs(a2).contains((x, f));
            assert(annotation_pairs(a1).contains((x, f)));
        }
    }
    lemma_same_set(requirement_ids(a1).to_set(), requirement_ids(a2).to_set());
    // Same files.
    assert forall|f: Seq<char>|
        file_paths(a1).to_set().contains(f) <==> file_paths(a2).to_set().contains(f) by {
        if file_paths(a1).to_set().contains(f) {
            let x = choose|x: Seq<char>| #[trigger] annotation_pairs(a1).contains((x, f));
            assert(annotation_pairs(a2).contains((x, f)));
        }
        if file_paths(a2).to_set().contains(f) {
            let x = choose|x: Seq<char>| #[trigger] annotation_pairs(a2).contains((x, f));
            assert(annotation_pairs(a1).contains((x, f)));
        }
    }
    lemma_same_set(file_paths(a1).to_set(), file_paths(a2).to_set());
    assert(m1.uncovered_requirements@ =~= m2.uncovered_requirements@);
    // Each file's requirements.
    assert forall|i: int, j: int|
        0 <= i < m1.file_coverage@.len() && 0 <= j < m2.file_coverage@.len() && (
        #[trigger] m1.file_coverage@[i]).file_path@ == (#[trigger] m2.file_coverage@[j]).file_path@
        implies m1.file_coverage@[i].requirement_count == m2.file_coverage@[j].requirement_count
        && views(m1.file_coverage@[i].requirements@).to_set() == views(
        m2.file_coverage@[j].requirements@,
    ).to_set() by {
        let path = m1.file_coverage@[i].file_path@;
        let r1 = requirements_in(a1, path);
        let r2 = requirements_in(a2, path);
        lemma_requirements_in_pairs(a1, path);
        lemma_requirements_in_pairs(a2, path);
        lemma_same_set(r1.to_set(), r2.to_set());
        lemma_dedup_set(r1);
        lemma_dedup_set(r2);
        assert(views(m1.file_coverage@[i].requirements@) == dedup(r1));
        assert(views(m2.file_coverage@[j].requirements@) == dedup(r2));
        assert(views(m1.file_coverage@[i].requirements@).len()
            == m1.file_coverage@[i].requirements@.len());
        assert(views(m2.file_coverage@[j].requirements@).len()
            == m2.file_coverage@[j].requirements@.len());
    }
}

/// Computes coverage metrics and reports.
pub trait CoverageCalculator {
    fn calculate(&self, scan_id: u128, annotations: &[RequirementAnnotation]) -> Result<
        CoverageMetrics,
        SddNavigatorError,
    >;

    fn generate_report(&self, metrics: CoverageMetrics) -> Result<CoverageReport, SddNavigatorError>;
}

/// The coverage calculator of the service.
#[derive(Debug, Clone, Copy)]
pub struct DefaultCoverageCalculator;

impl DefaultCoverageCalculator {
    pub fn new() -> (r: Self)
        ensures
            r == DefaultCoverageCalculator,
    {
        DefaultCoverageCalculator
    }
}

impl Default for DefaultCoverageCalculator {
    fn default() -> (r: Self)
        ensures
            r == DefaultCoverageCalculator,
    {
        DefaultCoverageCalculator
    }
}

/// `m` is what `calculate` gives for the scan `scan_id` with `anns`: every
/// distinct requirement id counts, all of them as covered (each has an
/// annotation, hence a file), and the file coverage lists each file's
/// distinct requirements.
pub open spec fn metrics_of(m: CoverageMetrics, scan_id: u128, anns: Seq<RequirementAnnotation>) -> bool {
    &&& m.scan_id == scan_id
    &&& m.total_requirements == dedup(requirement_ids(anns)).len()
    &&& m.covered_requirements == m.total_requirements
    &&& m.uncovered_requirements@.len() == 0
    &&& is_file_coverage(m.file_coverage@, anns)
    &&& 0 <= m.calculated_at.seconds
    &&& m.calculated_at.nanos < 1_000_000_000
}

impl CoverageCalculator for DefaultCoverageCalculator {
    /// The coverage metrics of a scan's annotations. Never fails.
    fn calculate(&self, scan_id: u128, annotations: &[RequirementAnnotation]) -> (r: Result<
        CoverageMetrics,
        SddNavigatorError,
    >)
        ensures
            r matches Ok(m) && metrics_of(m, scan_id, annotations@),
    {
        let mut metrics = CoverageMetrics::new(scan_id);
        let map = requirement_map(annotations);
        proof {
            lemma_dedup_distinct(requirement_ids(annotations@));
            let ks = map@.map_values(|e: (String, Vec<String>)| e.0@);
            assert forall|i: int, j: int| 0 <= i < j < map@.len() implies map@[i].0@
                != map@[j].0@ by {
                assert(ks[i] == map@[i].0@);
                assert(ks[j] == map@[j].0@);
            }
        }
        metrics.calculate_coverage(&map);
        proof {
            law_annotated_requirements_are_covered(map@, annotations@);
            assert(map@.map_values(|e: (String, Vec<String>)| e.0@).len() == map@.len());
        }
        metrics.file_coverage = file_coverage(annotations);
        Ok(metrics)
    }

    /// The report for `metrics`: the metrics with their recommendations.
    /// Never fails.
    fn generate_report(&self, metrics: CoverageMetrics) -> (r: Result<
        CoverageReport,
        SddNavigatorError,
    >)
        ensures
            r matches Ok(rep) && rep.scan_id == metrics.scan_id && rep.metrics == metrics && views(
                rep.recommendations@,
            ) == recommendations_for(metrics),
    {
        let recommendations = CoverageReport::generate_recommendations(&metrics);
        Ok(CoverageReport { scan_id: metrics.scan_id, metrics, recommendations })
    }
}

} // verus!
