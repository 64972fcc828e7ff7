use fde::scan::backend::everything::query::{GiveUpReason, RejectReason, TranslationInput};
use fde::scan::backend::everything::selection::{
    select_backend, AssumeIndexedProbe, BackendChoice, FallbackReason, VolumeIndexProbe,
};
use fde::winpath::path_starts_with;

struct PrefixProbe {
    indexed: Vec<String>,
}

impl VolumeIndexProbe for PrefixProbe {
    fn is_indexed(&self, p: &str) -> bool {
        self.indexed.iter().any(|root| path_starts_with(p, root))
    }
}

fn input_for(pattern: &'static str) -> TranslationInput<'static> {
    TranslationInput {
        pattern,
        glob: false,
        fixed_strings: false,
        exact: false,
        and_patterns: &[],
        full_path: false,
        case_sensitive: false,
        file_types: None,
        extensions: &[],
        size_filters: &[],
        time_filters: &[],
        max_depth: None,
        max_results: None,
    }
}

#[test]
fn forced_legacy_skips_translation_and_probe() {
    struct PanickingProbe;
    impl VolumeIndexProbe for PanickingProbe {
        fn is_indexed(&self, _: &str) -> bool {
            panic!("probe should not be consulted under force_legacy");
        }
    }
    let choices = select_backend(
        vec![r"C:\repo".to_string()],
        &input_for("foo"),
        &PanickingProbe,
        true,
    );
    assert_eq!(choices.len(), 1);
    assert!(matches!(
        choices[0],
        BackendChoice::Legacy {
            reason: FallbackReason::ForcedByFlag
        }
    ));
}

#[test]
fn non_indexed_path_routes_to_legacy() {
    let probe = PrefixProbe {
        indexed: vec![r"C:\".to_string()],
    };
    let choices = select_backend(
        vec![r"\\server\share".to_string()],
        &input_for("foo"),
        &probe,
        false,
    );
    assert!(matches!(
        choices[0],
        BackendChoice::Legacy {
            reason: FallbackReason::PathNotIndexed
        }
    ));
}

#[test]
fn indexed_path_with_supported_query_picks_everything() {
    let probe = PrefixProbe {
        indexed: vec![r"C:\".to_string()],
    };
    let choices = select_backend(
        vec![r"C:\repo".to_string()],
        &input_for("foo"),
        &probe,
        false,
    );
    match &choices[0] {
        BackendChoice::Everything(q) => {
            assert_eq!(q.pattern.everything_query, "regex:\"foo\"");
            assert_eq!(q.paths, vec![r"C:\repo".to_string()]);
        }
        other => panic!("expected Everything choice, got {other:?}"),
    }
}

#[test]
fn indexed_path_with_unsupported_query_falls_back_with_reason() {
    let probe = PrefixProbe {
        indexed: vec![r"C:\".to_string()],
    };
    let choices = select_backend(
        vec![r"C:\repo".to_string()],
        &input_for(r"\p{Greek}"),
        &probe,
        false,
    );
    match &choices[0] {
        BackendChoice::Legacy {
            reason: FallbackReason::QueryUnsupported(g),
        } => {
            assert!(matches!(
                g.reason,
                GiveUpReason::Regex(RejectReason::UnicodeProperty)
            ));
        }
        other => panic!("expected Legacy/QueryUnsupported, got {other:?}"),
    }
}

#[test]
fn mixed_paths_get_per_path_decisions() {
    let probe = PrefixProbe {
        indexed: vec![r"C:\".to_string()],
    };
    let choices = select_backend(
        vec![
            r"C:\repo".to_string(),
            r"\\server\share".to_string(),
            r"C:\src".to_string(),
        ],
        &input_for("foo"),
        &probe,
        false,
    );
    assert!(matches!(choices[0], BackendChoice::Everything(_)));
    assert!(matches!(
        choices[1],
        BackendChoice::Legacy {
            reason: FallbackReason::PathNotIndexed
        }
    ));
    assert!(matches!(choices[2], BackendChoice::Everything(_)));
}

#[test]
fn default_probe_assumes_every_path_indexed() {
    assert!(AssumeIndexedProbe.is_indexed(r"C:\anywhere"));
    assert!(AssumeIndexedProbe.is_indexed(r"\\srv\share"));
}
