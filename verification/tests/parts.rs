use gerc::evidence::{
    DeclarationEvidence, LayoutEvidence, LayoutKind, LinkAnalysis, LinkArtifact, LinkAtom,
    ProviderAssessment, SymbolAssessment, ValidatedLinkAnalysis,
};
use gerc::position::TypePosition;
use gerc::powers::is_power_of_two;
use gerc::source::{
    Linkage, SourceDeclaration, SourceDeclarationKind, SourceFingerprint, SourcePackage,
    SupportStatus, TargetFingerprint,
};
use gerc::stack::stack_contains;
use gerc::text::{append_decimal, extend_path, index_path};

fn decimal(value: u64) -> String {
    let mut text = "n=".to_owned();
    append_decimal(&mut text, value);
    text
}

#[test]
fn numerals_are_decimal() {
    assert_eq!(decimal(0), "n=0");
    assert_eq!(decimal(9), "n=9");
    assert_eq!(decimal(10), "n=10");
    assert_eq!(decimal(1_203_456_789), "n=1203456789");
    assert_eq!(decimal(u64::MAX), "n=18446744073709551615");
}

#[test]
fn paths_grow_at_the_end() {
    assert_eq!(extend_path("record", ".pointee"), "record.pointee");
    assert_eq!(extend_path("", ""), "");
    assert_eq!(index_path("record", ".fields", 105), "record.fields[105]");
}

#[test]
fn powers_of_two_are_told_apart() {
    for exponent in 0..64 {
        assert!(is_power_of_two(1 << exponent));
    }
    for value in [0, 3, 6, 12, 24, 100, (1 << 63) + 1, u64::MAX] {
        assert!(!is_power_of_two(value));
    }
}

#[test]
fn a_stack_holds_what_is_on_it() {
    assert!(stack_contains(&vec![3, 1], 1));
    assert!(!stack_contains(&vec![3, 1], 2));
    assert!(!stack_contains(&Vec::new(), 0));
}

#[test]
fn positions_differ_in_what_they_admit() {
    for (position, void, name) in [
        (TypePosition::ByValue, false, false),
        (TypePosition::BehindPointer, true, true),
        (TypePosition::Return, true, false),
        (TypePosition::Parameter, false, false),
        (TypePosition::AliasTarget, false, true),
    ] {
        assert_eq!(position.admits_void(), void);
        assert_eq!(position.names_only(), name);
    }
}

fn analysis(evidence: Vec<u64>, layouts: Vec<u64>) -> LinkAnalysis {
    let source_fingerprint = SourceFingerprint { high: 0, low: 1 };
    let target_fingerprint = TargetFingerprint { high: 0, low: 2 };
    LinkAnalysis {
        source_fingerprint,
        target_fingerprint,
        declaration_evidence: evidence
            .into_iter()
            .map(|declaration| DeclarationEvidence {
                declaration,
                source_fingerprint,
                target_fingerprint,
                provider: ProviderAssessment::Unresolved,
                symbol: SymbolAssessment::Inexact,
            })
            .collect(),
        layouts: layouts
            .into_iter()
            .map(|declaration| LayoutEvidence {
                declaration,
                kind: LayoutKind::Record,
                source_fingerprint,
                target_fingerprint,
            })
            .collect(),
        link_plan: vec![LinkAtom::Artifact(LinkArtifact { provider_id: 4 })],
    }
}

#[test]
fn evidence_is_validated_in_strict_order() {
    assert!(ValidatedLinkAnalysis::try_new(analysis(Vec::new(), Vec::new())).is_some());
    assert!(ValidatedLinkAnalysis::try_new(analysis(vec![1, 2, 9], vec![3, 4])).is_some());
    assert!(ValidatedLinkAnalysis::try_new(analysis(vec![1, 3, 2], Vec::new())).is_none());
    assert!(ValidatedLinkAnalysis::try_new(analysis(vec![1, 1], Vec::new())).is_none());
    assert!(ValidatedLinkAnalysis::try_new(analysis(Vec::new(), vec![2, 1])).is_none());
    assert!(ValidatedLinkAnalysis::try_new(analysis(Vec::new(), vec![2, 2])).is_none());
}

#[test]
fn evidence_is_found_by_declaration() {
    let validated =
        ValidatedLinkAnalysis::try_new(analysis(vec![1, 4, 6, 9], vec![2, 8])).expect("ordered");
    let package = validated.package();
    for id in 0..12 {
        assert_eq!(
            package.find_evidence(id).map(|entry| entry.declaration),
            [1, 4, 6, 9].into_iter().find(|found| *found == id)
        );
        assert_eq!(
            package.find_layout(id).map(|entry| entry.declaration),
            [2, 8].into_iter().find(|found| *found == id)
        );
    }
    assert!(package.is_planned(4));
    assert!(!package.is_planned(5));
}

#[test]
fn the_first_declaration_with_an_identifier_is_found() {
    let declaration = |id: u64, linkage: Linkage| SourceDeclaration {
        id,
        linkage,
        occurrences: Vec::new(),
        support: SupportStatus::Supported,
        kind: SourceDeclarationKind::Unsupported,
    };
    let package = SourcePackage {
        fingerprint: SourceFingerprint { high: 0, low: 0 },
        target_fingerprint: TargetFingerprint { high: 0, low: 0 },
        declarations: vec![
            declaration(8, Linkage::Unlinked),
            declaration(3, Linkage::Internal),
            declaration(3, Linkage::External),
        ],
    };
    assert_eq!(
        package.declaration(3).map(|found| found.linkage),
        Some(Linkage::Internal)
    );
    assert!(package.declaration(4).is_none());
}
