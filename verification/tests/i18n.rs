use calnexus::i18n::{detect_from, normalize_env_value, DetectedLang, I18n, Lang};

/// The detection sources for a synthetic environment: the values of
/// `CALNEXUS_LANG`, `LC_ALL`, `LC_MESSAGES` and `LANG`, then no system locale.
fn env_of(pairs: &[(&str, &str)]) -> Vec<Option<String>> {
    let get = |key: &str| pairs.iter().find(|(k, _)| *k == key).map(|(_, v)| v.to_string());
    vec![get("CALNEXUS_LANG"), get("LC_ALL"), get("LC_MESSAGES"), get("LANG"), None]
}


#[test]
fn test_lang_default_is_english() {
    assert_eq!(Lang::default(), Lang::En);
}

#[test]
fn test_default_is_english() {
    let i18n = I18n::default();
    assert_eq!(i18n.lang(), Lang::En);
}

#[test]
fn test_new_creates_with_specified_lang() {
    let en = I18n::new(Lang::En);
    assert_eq!(en.lang(), Lang::En);

    let zh = I18n::new(Lang::Zh);
    assert_eq!(zh.lang(), Lang::Zh);
}

#[test]
fn test_from_str_en() {
    assert_eq!(I18n::from_str("en").lang(), Lang::En);
}

#[test]
fn test_from_str_zh() {
    assert_eq!(I18n::from_str("zh").lang(), Lang::Zh);
}

#[test]
fn test_from_str_en_us() {
    assert_eq!(I18n::from_str("en-US").lang(), Lang::En);
}

#[test]
fn test_from_str_en_gb() {
    assert_eq!(I18n::from_str("en-GB").lang(), Lang::En);
}

#[test]
fn test_from_str_zh_cn() {
    assert_eq!(I18n::from_str("zh-CN").lang(), Lang::Zh);
}

#[test]
fn test_from_str_zh_tw() {
    assert_eq!(I18n::from_str("zh-TW").lang(), Lang::Zh);
}

#[test]
fn test_from_str_french_fallback_to_en() {
    assert_eq!(I18n::from_str("fr").lang(), Lang::En);
}

#[test]
fn test_from_str_japanese_fallback_to_en() {
    assert_eq!(I18n::from_str("ja").lang(), Lang::En);
}

#[test]
fn test_from_str_empty_string_fallback_to_en() {
    assert_eq!(I18n::from_str("").lang(), Lang::En);
}

#[test]
fn test_from_str_invalid_string_fallback_to_en() {
    assert_eq!(I18n::from_str("!!!").lang(), Lang::En);
}

#[test]
fn test_from_str_zhongwen_falls_back_to_en() {
    let i18n = I18n::from_str("zhongwen");
    assert_eq!(
        i18n.lang(),
        Lang::En,
        "zhongwen should fall back to En, not Zh"
    );
}

#[test]
fn test_from_str_zh_hans() {
    assert_eq!(I18n::from_str("zh-Hans").lang(), Lang::Zh);
}

#[test]
fn test_from_str_zh_hant() {
    assert_eq!(I18n::from_str("zh-Hant").lang(), Lang::Zh);
}

#[test]
fn test_from_str_zh_hans_cn() {
    assert_eq!(I18n::from_str("zh-Hans-CN").lang(), Lang::Zh);
}

#[test]
fn test_from_str_zh_hant_tw() {
    assert_eq!(I18n::from_str("zh-Hant-TW").lang(), Lang::Zh);
}

#[test]
fn test_from_str_zh_hans_sg() {
    assert_eq!(I18n::from_str("zh-Hans-SG").lang(), Lang::Zh);
}

#[test]
fn test_from_str_zh_hant_hk() {
    assert_eq!(I18n::from_str("zh-Hant-HK").lang(), Lang::Zh);
}

#[test]
fn test_from_str_zh_hans_mixed_case() {
    assert_eq!(I18n::from_str("ZH-hans").lang(), Lang::Zh);
    assert_eq!(I18n::from_str("zh-HANS").lang(), Lang::Zh);
}

#[test]
fn test_from_str_zh_private_use() {
    assert_eq!(I18n::from_str("zh-x-calnexus").lang(), Lang::Zh);
}

#[test]
fn test_from_str_zh_latn_pinyin() {
    assert_eq!(I18n::from_str("zh-Latn-pinyin").lang(), Lang::Zh);
}

#[test]
fn test_from_str_zhongwen_hans_falls_back_to_en() {
    assert_eq!(I18n::from_str("zhongwen-Hans").lang(), Lang::En);
}

#[test]
fn test_from_str_case_insensitive_zh() {
    assert_eq!(I18n::from_str("ZH").lang(), Lang::Zh);
    assert_eq!(I18n::from_str("Zh").lang(), Lang::Zh);
}

#[test]
fn test_from_str_case_insensitive_en() {
    assert_eq!(I18n::from_str("EN").lang(), Lang::En);
    assert_eq!(I18n::from_str("En").lang(), Lang::En);
}

#[test]
fn test_specific_english_translations() {
    let en = I18n::new(Lang::En);
    assert_eq!(en.t("error.parse"), "Parse error");
    assert_eq!(en.t("error.eval"), "Evaluation error");
    assert_eq!(en.t("error.overflow"), "Arithmetic overflow");
    assert_eq!(en.t("error.division_by_zero"), "Division by zero");
    assert_eq!(en.t("error.domain"), "Domain error");
    assert_eq!(en.t("error.depth"), "Maximum recursion depth exceeded");
    assert_eq!(en.t("error.nan_or_inf"), "Result is NaN or infinity");
    assert_eq!(en.t("error.undefined_symbol"), "Undefined symbol");
    assert_eq!(en.t("error.timeout"), "Evaluation timed out");
    assert_eq!(en.t("error.usage"), "Usage error");
    assert_eq!(en.t("label.position"), "Position");
    assert_eq!(en.t("label.hint"), "Hint");
    assert_eq!(en.t("label.error_kind"), "Error Kind");
    assert_eq!(en.t("label.exit_code"), "Exit Code");
    assert_eq!(en.t("label.suggestion"), "Suggestion");
}

#[test]
fn test_specific_chinese_translations() {
    let zh = I18n::new(Lang::Zh);
    assert_eq!(zh.t("error.parse"), "解析错误");
    assert_eq!(zh.t("error.eval"), "求值错误");
    assert_eq!(zh.t("error.overflow"), "算术溢出");
    assert_eq!(zh.t("error.division_by_zero"), "除以零");
    assert_eq!(zh.t("error.domain"), "定义域错误");
    assert_eq!(zh.t("error.depth"), "超过最大递归深度");
    assert_eq!(zh.t("error.nan_or_inf"), "结果为 NaN 或无穷大");
    assert_eq!(zh.t("error.undefined_symbol"), "未定义符号");
    assert_eq!(zh.t("error.timeout"), "求值超时");
    assert_eq!(zh.t("error.usage"), "用法错误");
    assert_eq!(zh.t("label.position"), "位置");
    assert_eq!(zh.t("label.hint"), "提示");
    assert_eq!(zh.t("label.error_kind"), "错误类别");
    assert_eq!(zh.t("label.exit_code"), "退出码");
    assert_eq!(zh.t("label.suggestion"), "建议");
}

#[test]
fn test_en_and_zh_translations_differ() {
    let en = I18n::new(Lang::En);
    let zh = I18n::new(Lang::Zh);
    let keys = [
        "error.parse",
        "error.eval",
        "error.overflow",
        "error.division_by_zero",
        "error.domain",
        "error.depth",
        "error.nan_or_inf",
        "error.undefined_symbol",
        "error.timeout",
        "error.usage",
        "label.position",
        "label.hint",
        "label.error_kind",
        "label.exit_code",
        "label.suggestion",
    ];
    for key in &keys {
        assert_ne!(
            en.t(key),
            zh.t(key),
            "key '{}' has identical en/zh translations",
            key
        );
    }
}

#[test]
fn test_unknown_key_returns_key_itself() {
    let en = I18n::new(Lang::En);
    assert_eq!(en.t("nonexistent.key"), "nonexistent.key");

    let zh = I18n::new(Lang::Zh);
    assert_eq!(zh.t("nonexistent.key"), "nonexistent.key");
}

#[test]
fn test_empty_key_returns_empty_string() {
    let en = I18n::new(Lang::En);
    assert_eq!(en.t(""), "");
}

#[test]
fn test_missing_key_falls_back_through_en_bundle_without_panic() {
    for lang in [Lang::En, Lang::Zh] {
        let i18n = I18n::new(lang);
        assert_eq!(i18n.t("no.such.key"), "no.such.key");
        assert_eq!(
            i18n.tf("no.such.key", &[("name", "x")]),
            "no.such.key",
            "tf missing key must return key itself without panic"
        );
    }
}

#[test]
fn test_tf_single_placeholder_en() {
    let i18n = I18n::new(Lang::En);
    assert_eq!(
        i18n.tf("msg.unbound_variable", &[("name", "x")]),
        "Unbound variable: x"
    );
    assert_eq!(
        i18n.tf("msg.unknown_function", &[("name", "sin")]),
        "Unknown function: sin"
    );
}

#[test]
fn test_tf_single_placeholder_zh() {
    let i18n = I18n::new(Lang::Zh);
    assert_eq!(
        i18n.tf("msg.unbound_variable", &[("name", "x")]),
        "未绑定变量: x"
    );
    assert_eq!(
        i18n.tf("msg.unknown_function", &[("name", "sin")]),
        "未知函数: sin"
    );
}

#[test]
fn test_tf_multiple_placeholders_en() {
    let i18n = I18n::new(Lang::En);
    assert_eq!(
        i18n.tf(
            "msg.matrix_dim_mismatch",
            &[("expected", "3x3"), ("actual", "2x2")]
        ),
        "Matrix dimension mismatch: expected 3x3, got 2x2"
    );
    assert_eq!(
        i18n.tf(
            "msg.function_arg_count",
            &[("name", "sin"), ("expected", "1"), ("actual", "2")]
        ),
        "Function sin expects 1 args, got 2"
    );
}

#[test]
fn test_tf_multiple_placeholders_zh() {
    let i18n = I18n::new(Lang::Zh);
    assert_eq!(
        i18n.tf(
            "msg.matrix_dim_mismatch",
            &[("expected", "3x3"), ("actual", "2x2")]
        ),
        "矩阵维度不匹配: 期望 3x3, 实际 2x2"
    );
    assert_eq!(
        i18n.tf(
            "msg.function_arg_count",
            &[("name", "sin"), ("expected", "1"), ("actual", "2")]
        ),
        "函数 sin 期望 1 个参数, 实际 2"
    );
}

#[test]
fn test_tf_unknown_key_returns_key_itself() {
    let en = I18n::new(Lang::En);
    assert_eq!(
        en.tf("nonexistent.key", &[("name", "x")]),
        "nonexistent.key"
    );
}


#[test]
fn test_tf_missing_placeholder_preserved() {
    let i18n = I18n::new(Lang::En);
    assert_eq!(
        i18n.tf("msg.function_arg_count", &[("name", "sin")]),
        "Function sin expects {$expected} args, got {$actual}"
    );
}

#[test]
fn test_tf_empty_args_equivalent_to_t() {
    let en = I18n::new(Lang::En);
    assert_eq!(
        en.tf("msg.unbound_variable", &[]),
        "Unbound variable: {$name}"
    );
    assert_eq!(en.tf("error.parse", &[]), en.t("error.parse"));

    let zh = I18n::new(Lang::Zh);
    assert_eq!(zh.tf("msg.unbound_variable", &[]), "未绑定变量: {$name}");
    assert_eq!(zh.tf("error.parse", &[]), zh.t("error.parse"));
}

#[test]
fn test_unknown_language_uses_en_bundle() {
    let i18n = I18n::from_str("ar");
    assert_eq!(i18n.lang(), Lang::En);
    assert_eq!(i18n.t("error.parse"), "Parse error");
    assert_eq!(
        i18n.tf("msg.unbound_variable", &[("name", "foo")]),
        "Unbound variable: foo"
    );
}

#[test]
fn test_leading_whitespace_preserved() {
    let en = I18n::new(Lang::En);
    assert_eq!(en.t("label.cached_suffix"), " (cached)");
    let zh = I18n::new(Lang::Zh);
    assert_eq!(zh.t("label.cached_suffix"), " （已缓存）");
}

#[test]
fn test_detect_zh_cn_utf8() {
    assert_eq!(
        detect_from(&env_of(&[("LANG", "zh_CN.UTF-8")])),
        Lang::Zh
    );
}

#[test]
fn test_detect_zh_tw() {
    assert_eq!(detect_from(&env_of(&[("LANG", "zh_TW")])), Lang::Zh);
}

#[test]
fn test_detect_fr_fr_falls_back_to_en() {
    assert_eq!(detect_from(&env_of(&[("LANG", "fr_FR")])), Lang::En);
}

#[test]
fn test_detect_c_locale_falls_back_to_en() {
    assert_eq!(detect_from(&env_of(&[("LANG", "C")])), Lang::En);
    assert_eq!(detect_from(&env_of(&[("LANG", "POSIX")])), Lang::En);
    assert_eq!(detect_from(&env_of(&[("LANG", "C.UTF-8")])), Lang::En);
}

#[test]
fn test_detect_empty_and_malformed_fall_back_to_en() {
    assert_eq!(detect_from(&env_of(&[("LANG", "")])), Lang::En);
    assert_eq!(detect_from(&env_of(&[("LANG", "   ")])), Lang::En);
    assert_eq!(detect_from(&env_of(&[("LANG", "!!!")])), Lang::En);
    assert_eq!(detect_from(&env_of(&[("LANG", "zhongwen")])), Lang::En);
    assert_eq!(detect_from(&env_of(&[])), Lang::En);
}

#[test]
fn test_detect_chain_order() {
    assert_eq!(
        detect_from(&env_of(&[
            ("CALNEXUS_LANG", "en"),
            ("LC_ALL", "zh_CN.UTF-8"),
            ("LANG", "zh_CN.UTF-8")
        ])),
        Lang::En
    );
    assert_eq!(
        detect_from(&env_of(&[
            ("CALNEXUS_LANG", "zh"),
            ("LC_ALL", "en_US.UTF-8")
        ])),
        Lang::Zh
    );
    assert_eq!(
        detect_from(&env_of(&[
            ("LC_ALL", "zh_CN.UTF-8"),
            ("LC_MESSAGES", "en_US.UTF-8"),
            ("LANG", "en_US.UTF-8")
        ])),
        Lang::Zh
    );
    assert_eq!(
        detect_from(&env_of(&[
            ("LC_MESSAGES", "zh_CN.UTF-8"),
            ("LANG", "en_US.UTF-8")
        ])),
        Lang::Zh
    );
    assert_eq!(
        detect_from(&env_of(&[
            ("LC_ALL", "fr_FR.UTF-8"),
            ("LANG", "zh_CN.UTF-8")
        ])),
        Lang::Zh
    );
}

#[test]
fn test_detect_result_domain_is_en_or_zh() {
    let samples = [
        "zh", "zh-Hans", "zh-HK", "en", "en-GB", "de_DE", "ja", "ko_KR.eucKR",
        "C", "POSIX", "", "zhongwen", "@@@", "en_x_@broken",
    ];
    for s in samples {
        let lang = detect_from(&env_of(&[("LANG", s)]));
        assert!(matches!(lang, Lang::En | Lang::Zh), "input {s:?}");
    }
}

#[test]
fn test_normalize_env_value_variants() {
    assert_eq!(normalize_env_value("zh_CN.UTF-8"), Some(Lang::Zh));
    assert_eq!(normalize_env_value("zh_TW"), Some(Lang::Zh));
    assert_eq!(normalize_env_value("zh-Hant-HK"), Some(Lang::Zh));
    assert_eq!(normalize_env_value("ZH"), Some(Lang::Zh));
    assert_eq!(normalize_env_value("en_US.UTF-8"), Some(Lang::En));
    assert_eq!(normalize_env_value("fr_FR"), None);
    assert_eq!(normalize_env_value("C"), None);
    assert_eq!(normalize_env_value("POSIX"), None);
    assert_eq!(normalize_env_value(""), None);
    assert_eq!(normalize_env_value("zh_CN@pinyin"), Some(Lang::Zh));
}

#[test]
fn test_panic_hook_messages_come_from_catalog() {
    let en = I18n::new(Lang::En);
    let zh = I18n::new(Lang::Zh);
    assert_eq!(en.t("panic.internal_error"), "calnexus: internal error (panic)");
    assert_eq!(en.t("panic.report_bug"), "calnexus: please report this bug with the backtrace above");
    assert_eq!(zh.t("panic.internal_error"), "calnexus: 内部错误（panic）");
    assert_eq!(zh.t("panic.report_bug"), "calnexus: 请携带上方 backtrace 报告此问题");
    for key in ["panic.internal_error", "panic.report_bug"] {
        assert_ne!(en.t(key), key, "en catalog missing key: {key}");
        assert_ne!(zh.t(key), key, "zh catalog missing key: {key}");
    }
    assert_ne!(en.t("panic.internal_error"), zh.t("panic.internal_error"));
}

#[test]
fn normalize_env_value_trims_unicode_whitespace() {
    assert_eq!(normalize_env_value("\u{3000}zh_CN\u{2028}"), Some(Lang::Zh));
    assert_eq!(normalize_env_value("\t en_US \u{a0}"), Some(Lang::En));
    assert_eq!(normalize_env_value(" \u{2003} "), None);
}

#[test]
fn detected_language_is_kept_for_later_requests() {
    let mut detected = DetectedLang::new();
    let zh = vec![Some("zh_CN.UTF-8".to_string()), None, None, None, None];
    let en = vec![Some("en_US".to_string()), None, None, None, None];
    assert_eq!(detected.get(&zh), Lang::Zh);
    assert_eq!(detected.get(&en), Lang::Zh);
    assert_eq!(detected.get(&vec![]), Lang::Zh);
    let mut fresh = DetectedLang::new();
    assert_eq!(fresh.get(&vec![None, Some("C".to_string())]), Lang::En);
    assert_eq!(fresh.get(&zh), Lang::En);
}
