use string_metrics::{
    case_fold, case_fold_with_locale, normalize, normalize_preset, normalize_with_locale,
    preset_from_name, NormalizationPreset,
};

#[test]
fn preset_none_is_the_identity() {
    assert_eq!(normalize("  HeLLo  ", "none"), "  HeLLo  ");
    assert_eq!(normalize("e\u{301}", "none"), "e\u{301}");
    assert_eq!(normalize("", "none"), "");
}

#[test]
fn preset_minimal_trims_and_composes() {
    assert_eq!(normalize("  HeLLo  ", "minimal"), "HeLLo");
    assert_eq!(normalize(" e\u{301}\t", "minimal"), "\u{e9}");
    assert_eq!(normalize("\u{a0}x\u{2003}", "minimal"), "x");
    assert_eq!(normalize("a  b", "minimal"), "a  b");
}

#[test]
fn preset_default_folds_case_then_trims_and_composes() {
    assert_eq!(normalize("  HeLLo WORLD ", "default"), "hello world");
    assert_eq!(normalize("Stra\u{df}e", "default"), "strasse");
    assert_eq!(normalize("E\u{301}COLE", "default"), "\u{e9}cole");
    assert_eq!(normalize("\u{130}stanbul", "default"), "i\u{307}stanbul");
    assert_eq!(normalize("Hello, World!", "default"), "hello, world!");
}

#[test]
fn preset_aggressive_strips_diacritics_and_punctuation() {
    assert_eq!(normalize("  Caf\u{e9}, M\u{fc}nster! ", "aggressive"), "cafe munster");
    assert_eq!(normalize("\u{fb01}anc\u{e9}", "aggressive"), "fiance");
    assert_eq!(normalize("\u{130}stanbul", "aggressive"), "istanbul");
    assert_eq!(normalize("--x--", "aggressive"), "x");
    assert_eq!(normalize(" ... ", "aggressive"), "");
    assert_eq!(normalize("A1 b2", "aggressive"), "a1 b2");
}

#[test]
fn unknown_preset_leaves_the_input_unchanged() {
    assert_eq!(normalize("  HeLLo  ", "fancy"), "  HeLLo  ");
    assert_eq!(normalize("  HeLLo  ", ""), "  HeLLo  ");
    assert_eq!(normalize("  HeLLo  ", "Default"), "  HeLLo  ");
    assert_eq!(
        normalize_with_locale("  I\u{130}  ", "fancy", Some("tr".to_string())),
        "  I\u{130}  "
    );
}

#[test]
fn preset_names() {
    assert_eq!(preset_from_name("none"), Some(NormalizationPreset::Verbatim));
    assert_eq!(preset_from_name("minimal"), Some(NormalizationPreset::Minimal));
    assert_eq!(preset_from_name("default"), Some(NormalizationPreset::Standard));
    assert_eq!(preset_from_name("aggressive"), Some(NormalizationPreset::Aggressive));
    assert_eq!(preset_from_name("other"), None);
}

#[test]
fn turkic_locales_fold_dotted_and_dotless_i() {
    for locale in ["tr", "az"] {
        assert_eq!(
            normalize_with_locale("\u{130}I", "default", Some(locale.to_string())),
            "i\u{131}"
        );
        assert_eq!(case_fold_with_locale("DI\u{130}", Some(locale)), "d\u{131}i");
        assert_eq!(case_fold_with_locale("Stra\u{df}e", Some(locale)), "strasse");
    }
}

#[test]
fn other_locales_fold_by_the_default_rules() {
    for locale in [Some("lt"), Some("de"), Some(""), Some("TR"), None] {
        assert_eq!(case_fold_with_locale("\u{130}I", locale), "i\u{307}i");
        assert_eq!(
            normalize_with_locale("\u{130}I", "default", locale.map(|l| l.to_string())),
            "i\u{307}i"
        );
        assert_eq!(case_fold_with_locale("\u{df}", locale), "ss");
    }
}

#[test]
fn aggressive_preset_under_a_turkic_locale() {
    assert_eq!(
        normalize_with_locale(" \u{130}ZM\u{130}R! ", "aggressive", Some("tr".to_string())),
        "izmir"
    );
    assert_eq!(
        normalize_with_locale("ISI", "aggressive", Some("az".to_string())),
        "\u{131}s\u{131}"
    );
}

#[test]
fn case_fold_lowers_every_other_character() {
    assert_eq!(case_fold("HeLLo"), "hello");
    assert_eq!(case_fold("\u{130}"), "i\u{307}");
    assert_eq!(case_fold("\u{df}"), "ss");
    assert_eq!(case_fold("\u{1e9e}"), "\u{df}");
    assert_eq!(case_fold("\u{391}\u{3a3}"), "\u{3b1}\u{3c3}");
    assert_eq!(case_fold("  A b "), "  a b ");
    assert_eq!(case_fold(""), "");
}

#[test]
fn normalize_preset_by_variant() {
    assert_eq!(normalize_preset(" A ", NormalizationPreset::Verbatim, false), " A ");
    assert_eq!(normalize_preset(" A ", NormalizationPreset::Minimal, false), "A");
    assert_eq!(normalize_preset(" I ", NormalizationPreset::Standard, false), "i");
    assert_eq!(normalize_preset(" I ", NormalizationPreset::Standard, true), "\u{131}");
    assert_eq!(normalize_preset(" I! ", NormalizationPreset::Aggressive, true), "\u{131}");
}

#[test]
fn normalize_uses_the_default_locale() {
    for preset in ["none", "minimal", "default", "aggressive", "unknown"] {
        for s in ["  \u{130}I \u{df} ", "Caf\u{e9}!", ""] {
            assert_eq!(normalize(s, preset), normalize_with_locale(s, preset, None));
        }
    }
}
