//! Text, names, tables and tokens.
use openrok::clock::{time_since, Clock, LATEST};
use openrok::subdomain::{
    generated_subdomain, host_for, is_valid_subdomain, normalize_subdomain, numbered_subdomain,
    tunnel_for_host, tunnel_id_for, GENERATED_NAMES,
};
use openrok::table::Table;
use openrok::text::{
    has_prefix, has_suffix, is_space, lower_char, same_text, to_ascii_lower, to_decimal, trimmed,
    up_to_char, with_char_replaced, without_leading_char, without_leading_text,
    without_trailing_char,
};
use openrok::token::random_token;

#[test]
fn white_space_is_what_the_standard_library_says() {
    for code in 0..=0x10ffff_u32 {
        if let Some(c) = char::from_u32(code) {
            assert_eq!(is_space(c), c.is_whitespace(), "{:?}", c);
        }
    }
}

#[test]
fn lower_case_is_what_the_standard_library_says() {
    for code in 0..=0x10ffff_u32 {
        if let Some(c) = char::from_u32(code) {
            assert_eq!(lower_char(c), c.to_ascii_lowercase());
        }
    }
    assert_eq!(to_ascii_lower("AbC-\u{c9}"), "abc-\u{c9}");
}

#[test]
fn text_functions_agree_with_the_standard_library() {
    let samples = [
        "", " ", "a", " a ", "\u{3000}x y\u{a0}", "//a//", "http://http://x", "a:b:c", ":", "a-b-c",
        "https://x/", "\u{e9}t\u{e9}",
    ];
    for s in samples {
        assert_eq!(trimmed(s), s.trim());
        assert_eq!(up_to_char(s, ':'), s.split(':').next().unwrap());
        assert_eq!(with_char_replaced(s, '-', '_'), s.replace('-', "_"));
        assert_eq!(without_leading_char(s, '/'), s.trim_start_matches('/'));
        assert_eq!(without_trailing_char(s, '/'), s.trim_end_matches('/'));
        assert_eq!(without_leading_text(s, "http://"), s.trim_start_matches("http://"));
        for t in samples {
            assert_eq!(has_prefix(s, t), s.starts_with(t));
            assert_eq!(has_suffix(s, t), s.ends_with(t));
            assert_eq!(same_text(s, t), s == t);
        }
    }
}

#[test]
fn decimals_are_written_without_leading_zeros() {
    for n in [0, 1, 9, 10, 11, 99, 100, 65535, u64::MAX] {
        assert_eq!(to_decimal(n), n.to_string());
    }
}

#[test]
fn subdomains_are_labels_of_three_to_sixty_three() {
    assert!(is_valid_subdomain("abc"));
    assert!(is_valid_subdomain("a-9"));
    assert!(is_valid_subdomain(&"a".repeat(63)));
    for bad in ["", "ab", "-ab", "ab-", "aBc", "a_c", "a.c", "\u{e9}\u{e9}\u{e9}"] {
        assert!(!is_valid_subdomain(bad), "{}", bad);
    }
    assert!(!is_valid_subdomain(&"a".repeat(64)));
}

#[test]
fn normalizing_trims_and_lowers() {
    assert_eq!(normalize_subdomain("  DeMo\n"), Some("demo".to_string()));
    assert_eq!(normalize_subdomain("   "), None);
    assert_eq!(normalize_subdomain(""), None);
    assert_eq!(normalize_subdomain("a b"), Some("a b".to_string()));
}

#[test]
fn names_lead_to_hosts_and_ids() {
    assert_eq!(host_for("my-app", "openrok.io"), "my-app.openrok.io");
    assert_eq!(tunnel_id_for("my-app"), "tnl_my_app");
    assert_eq!(
        tunnel_for_host("openrok.io", " My-App.OpenRok.io :80"),
        Some("tnl_my_app".to_string())
    );
    assert_eq!(tunnel_for_host("openrok.io", "a.b.openrok.io"), Some("tnl_a.b".to_string()));
    assert_eq!(tunnel_for_host("openrok.io", "myopenrok.io"), None);
}

#[test]
fn generated_names_are_valid() {
    for _ in 0..100 {
        let name = generated_subdomain();
        assert!(name.starts_with("rok-"));
        assert_eq!(name.len(), 12);
        assert!(is_valid_subdomain(&name));
    }
}

#[test]
fn names_by_number_run_through_all_letters_and_digits() {
    assert_eq!(numbered_subdomain(0), "rok-aaaaaaaa");
    assert_eq!(numbered_subdomain(25), "rok-aaaaaaaz");
    assert_eq!(numbered_subdomain(26), "rok-aaaaaaa0");
    assert_eq!(numbered_subdomain(35), "rok-aaaaaaa9");
    assert_eq!(numbered_subdomain(36), "rok-aaaaaaba");
    assert_eq!(numbered_subdomain(GENERATED_NAMES - 1), "rok-99999999");
    assert_eq!(GENERATED_NAMES, 36_u64.pow(8));
}

#[test]
fn tokens_have_their_length_and_vary() {
    assert_eq!(random_token(0), "");
    let token = random_token(24);
    assert_eq!(token.len(), 24);
    assert!(token.chars().all(|c| c.is_ascii_alphanumeric()));
    assert_ne!(token, random_token(24));
}

#[test]
fn table_behaves_like_a_map() {
    let mut table: Table<u32> = Table::new();
    assert_eq!(table.len(), 0);
    assert!(!table.contains_key("a"));
    table.insert("a".to_string(), 1);
    table.insert("b".to_string(), 2);
    table.insert("a".to_string(), 3);
    assert_eq!(table.len(), 2);
    assert_eq!(table.get("a"), Some(&3));
    assert_eq!(table.get("b"), Some(&2));
    assert_eq!(table.remove("a"), Some(3));
    assert_eq!(table.remove("a"), None);
    assert!(table.contains_key("b"));
    assert_eq!(table.len(), 1);
}

#[test]
fn ages_do_not_go_below_zero() {
    assert_eq!(time_since(10, 4), 6);
    assert_eq!(time_since(4, 10), 0);
    assert_eq!(time_since(4, 4), 0);
}

#[test]
fn clock_moves_on() {
    let clock = Clock::new();
    let first = clock.now();
    let second = clock.now();
    assert!(first <= second);
    assert!(second <= LATEST);
    assert_eq!(LATEST, std::time::Duration::MAX.as_nanos());
}
