use magic_audio_control::iconify::{
    fallback_icon_query, icon_cache_key, iconify_icon_url, iconify_search_url, GENERIC_ICON_QUERY,
};

#[test]
fn search_url_encodes_query() {
    assert_eq!(iconify_search_url("firefox"), "https://api.iconify.design/search?query=firefox&limit=5");
    assert_eq!(
        iconify_search_url("Google Chrome"),
        "https://api.iconify.design/search?query=Google%20Chrome&limit=5"
    );
    assert_eq!(
        iconify_search_url("a:b/c~d_e.f-g"),
        "https://api.iconify.design/search?query=a%3Ab%2Fc~d_e.f-g&limit=5"
    );
    assert_eq!(iconify_search_url("é"), "https://api.iconify.design/search?query=%C3%A9&limit=5");
}

#[test]
fn icon_url_from_first_result() {
    assert_eq!(iconify_icon_url(&vec![]), None);
    assert_eq!(
        iconify_icon_url(&vec![Some("logos:firefox".to_string()), Some("mdi:x".to_string())]).as_deref(),
        Some("https://api.iconify.design/logos/firefox.svg?width=256&height=256")
    );
    assert_eq!(
        iconify_icon_url(&vec![None]).as_deref(),
        Some("https://api.iconify.design/.svg?width=256&height=256")
    );
}

#[test]
fn cache_key_is_lower_case() {
    assert_eq!(icon_cache_key("Google Chrome"), "google chrome");
    assert_eq!(icon_cache_key("ÉCRAN"), "écran");
}

#[test]
fn fallback_query_is_first_lower_case_word() {
    assert_eq!(fallback_icon_query("Google Chrome").as_deref(), Some("google"));
    assert_eq!(fallback_icon_query("Firefox").as_deref(), Some("firefox"));
    assert_eq!(fallback_icon_query("vlc"), None);
    assert_eq!(fallback_icon_query("spotify music"), Some("spotify".to_string()));
    assert_eq!(fallback_icon_query("").as_deref(), None);
    assert_eq!(fallback_icon_query("   "), None);
    assert_eq!(fallback_icon_query("  Steam Client").as_deref(), Some("steam"));
}

#[test]
fn generic_icon_query() {
    assert_eq!(GENERIC_ICON_QUERY, "fluent:app-generic-48-filled");
}
