use neocalc_core::{init_locale, t, t_in};

#[test]
fn test_english_default() {
    let loc = init_locale("en-US");
    assert_eq!(t_in(loc, "error-division-by-zero"), "Cannot divide by zero");
    assert_eq!(t("error-division-by-zero"), "Cannot divide by zero");
}

#[test]
fn test_portuguese() {
    let loc = init_locale("pt-BR");
    assert_eq!(
        t_in(loc, "error-division-by-zero"),
        "Não é possível dividir por zero"
    );
}

#[test]
fn test_fallback_to_english() {
    let loc = init_locale("unknown-locale");
    // Should fall back to English
    assert_eq!(t_in(loc, "error-division-by-zero"), "Cannot divide by zero");
}
