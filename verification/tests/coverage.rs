use sdd_navigator_service::models::annotation::RequirementAnnotation;
use sdd_navigator_service::models::coverage::{
    recommendations_at_level, CoverageLevel, CoverageMetrics, CoverageReport,
};
use sdd_navigator_service::services::coverage_calculator::{
    CoverageCalculator, DefaultCoverageCalculator,
};

fn ann(id: &str, path: &str) -> RequirementAnnotation {
    RequirementAnnotation::new(id.to_string(), path.to_string(), 1, String::new(), None)
}

#[test]
fn every_annotated_requirement_is_covered() {
    let anns = vec![ann("R1", "a.rs"), ann("R2", "a.rs"), ann("R1", "b.rs"), ann("R1", "a.rs")];
    let m = DefaultCoverageCalculator::new().calculate(42, &anns).unwrap();
    assert_eq!(m.scan_id, 42);
    assert_eq!(m.total_requirements, 2);
    assert_eq!(m.covered_requirements, 2);
    assert!(m.uncovered_requirements.is_empty());
    assert_eq!(m.file_coverage.len(), 2);
    assert_eq!(m.file_coverage[0].file_path, "a.rs");
    assert_eq!(m.file_coverage[0].requirements, vec!["R1", "R2"]);
    assert_eq!(m.file_coverage[0].requirement_count, 2);
    assert_eq!(m.file_coverage[1].file_path, "b.rs");
    assert_eq!(m.file_coverage[1].requirements, vec!["R1"]);
    assert_eq!(m.file_coverage[1].requirement_count, 1);
}

#[test]
fn no_annotations_no_requirements() {
    let m = DefaultCoverageCalculator::new().calculate(1, &[]).unwrap();
    assert_eq!(m.total_requirements, 0);
    assert_eq!(m.covered_requirements, 0);
    assert!(m.file_coverage.is_empty());
    let report = DefaultCoverageCalculator::new().generate_report(m).unwrap();
    assert_eq!(report.scan_id, 1);
    assert_eq!(
        report.recommendations,
        vec!["Critically low requirement coverage. Immediate increase in annotations recommended."]
    );
}

#[test]
fn coverage_from_a_requirement_map() {
    let mut m = CoverageMetrics::new(5);
    let map = vec![
        ("A".to_string(), vec!["x.rs".to_string()]),
        ("B".to_string(), vec![]),
        ("C".to_string(), vec!["y.rs".to_string(), "z.rs".to_string()]),
        ("D".to_string(), vec![]),
    ];
    m.calculate_coverage(&map);
    assert_eq!(m.total_requirements, 4);
    assert_eq!(m.covered_requirements, 2);
    assert_eq!(m.uncovered_requirements, vec!["B", "D"]);
    assert_eq!(m.covered_requirements + m.uncovered_requirements.len(), m.total_requirements);
    // 50%: not critically low, below target, two uncovered.
    assert_eq!(
        CoverageReport::generate_recommendations(&m),
        vec![
            "Requirement coverage below target level. Consider adding annotations for key components.",
            "Found 2 uncovered requirements. Attention needed for these specifications.",
        ]
    );
}

#[test]
fn recommendation_thresholds() {
    let mut m = CoverageMetrics::new(5);
    m.total_requirements = 4;
    m.covered_requirements = 3;
    // 75% is on target.
    assert!(CoverageReport::generate_recommendations(&m).is_empty());
    m.covered_requirements = 1;
    assert_eq!(
        CoverageReport::generate_recommendations(&m),
        vec!["Critically low requirement coverage. Immediate increase in annotations recommended."]
    );
    m.total_requirements = 100;
    m.covered_requirements = 74;
    assert_eq!(
        CoverageReport::generate_recommendations(&m),
        vec!["Requirement coverage below target level. Consider adding annotations for key components."]
    );
    m.covered_requirements = 49;
    assert_eq!(CoverageReport::generate_recommendations(&m).len(), 1);
    assert!(CoverageReport::generate_recommendations(&m)[0].starts_with("Critically"));
}

#[test]
fn coverage_depends_only_on_the_pairs() {
    let a = vec![ann("R1", "a.rs"), ann("R2", "a.rs"), ann("R1", "b.rs")];
    let b = vec![ann("R1", "b.rs"), ann("R1", "b.rs"), ann("R2", "a.rs"), ann("R1", "a.rs")];
    let calc = DefaultCoverageCalculator::new();
    let m1 = calc.calculate(7, &a).unwrap();
    let m2 = calc.calculate(7, &b).unwrap();
    assert_eq!(m1.total_requirements, m2.total_requirements);
    assert_eq!(m1.covered_requirements, m2.covered_requirements);
    assert_eq!(m1.uncovered_requirements, m2.uncovered_requirements);
    assert_eq!(m1.file_coverage.len(), m2.file_coverage.len());
    for f in &m1.file_coverage {
        let g = m2.file_coverage.iter().find(|g| g.file_path == f.file_path).unwrap();
        assert_eq!(f.requirement_count, g.requirement_count);
        let mut r1 = f.requirements.clone();
        let mut r2 = g.requirements.clone();
        r1.sort();
        r2.sort();
        assert_eq!(r1, r2);
    }
}

#[test]
fn recommendations_by_level() {
    assert!(recommendations_at_level(CoverageLevel::OnTarget, 0).is_empty());
    assert_eq!(
        recommendations_at_level(CoverageLevel::Critical, 3),
        vec![
            "Critically low requirement coverage. Immediate increase in annotations recommended.",
            "Found 3 uncovered requirements. Attention needed for these specifications.",
        ]
    );
    assert_eq!(
        recommendations_at_level(CoverageLevel::BelowTarget, 0),
        vec!["Requirement coverage below target level. Consider adding annotations for key components."]
    );
}
