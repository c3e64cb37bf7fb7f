use magpie::i18n::{t, translate, Translations};

/// The translation tables the tests read: English keys map to themselves,
/// with the Italian and Spanish entries the tests look for.
fn sample_translations() -> Translations {
    let en = r#"{
        "You are not authorized to use this bot": "You are not authorized to use this bot",
        "Torrent {name} has finished downloading!": "Torrent {name} has finished downloading!",
        "Welcome to QBittorrent Bot": "Welcome to QBittorrent Bot"
    }"#;
    let it = r#"{
        "You are not authorized to use this bot": "Non sei autorizzato ad usare questo bot",
        "Torrent {name} has finished downloading!": "Il torrent {name} è stato scaricato!",
        "**============SYSTEM============**\n**CPU Usage:** {cpu_usage}%\n**CPU Temp:** {cpu_temp}°C\n**Free Memory:** {free_memory} of {total_memory} ({memory_percent}%)\n**Disks usage:** {disk_used} of {disk_total} ({disk_percent}%)": "**============SISTEMA============**\n**Utilizzo CPU:** {cpu_usage}%\n**Temperatura CPU:** {cpu_temp}°C\n**Memoria libera:** {free_memory} di {total_memory} ({memory_percent}%)\n**Utilizzo disco:** {disk_used} di {disk_total} ({disk_percent}%)",
        "Number": 7
    }"#;
    let es = r#"{
        "You are not authorized to use this bot": "No estás autorizado para usar este bot"
    }"#;
    let sources = vec![
        ("en".to_string(), en.to_string()),
        ("es".to_string(), es.to_string()),
        ("it".to_string(), it.to_string()),
    ];
    Translations::from_json_sources(&sources)
}

#[test]
fn test_t_simple() {
    let tr = sample_translations();
    assert_eq!(
        t(&tr, "You are not authorized to use this bot", "en", None),
        "You are not authorized to use this bot"
    );
    assert_eq!(
        t(&tr, "You are not authorized to use this bot", "it", None),
        "Non sei autorizzato ad usare questo bot"
    );
    assert_eq!(
        t(&tr, "You are not authorized to use this bot", "es", None),
        "No estás autorizado para usar este bot"
    );
}

#[test]
fn test_t_fallback() {
    let tr = sample_translations();
    assert_eq!(
        t(&tr, "This key does not exist anywhere", "en", None),
        "This key does not exist anywhere"
    );
    assert_eq!(
        t(&tr, "This key does not exist anywhere", "it", None),
        "This key does not exist anywhere"
    );
}

#[test]
fn test_t_substitutions() {
    let tr = sample_translations();
    let vars = vec![("name".to_string(), "ubuntu-24.04-desktop-amd64.iso".to_string())];
    assert_eq!(
        t(&tr, "Torrent {name} has finished downloading!", "en", Some(&vars)),
        "Torrent ubuntu-24.04-desktop-amd64.iso has finished downloading!"
    );
    assert_eq!(
        t(&tr, "Torrent {name} has finished downloading!", "it", Some(&vars)),
        "Il torrent ubuntu-24.04-desktop-amd64.iso è stato scaricato!"
    );

    let stats_vars = vec![
        ("cpu_temp".to_string(), "45".to_string()),
        ("cpu_usage".to_string(), "12".to_string()),
        ("disk_percent".to_string(), "45".to_string()),
        ("disk_total".to_string(), "1 TB".to_string()),
        ("disk_used".to_string(), "450 GB".to_string()),
        ("free_memory".to_string(), "8.5 GB".to_string()),
        ("memory_percent".to_string(), "46".to_string()),
        ("total_memory".to_string(), "16 GB".to_string()),
    ];
    let stats_text = t(
        &tr,
        "**============SYSTEM============**\n**CPU Usage:** {cpu_usage}%\n**CPU Temp:** {cpu_temp}°C\n**Free Memory:** {free_memory} of {total_memory} ({memory_percent}%)\n**Disks usage:** {disk_used} of {disk_total} ({disk_percent}%)",
        "it",
        Some(&stats_vars),
    );
    assert!(stats_text.contains("SISTEMA"));
    assert!(stats_text.contains("**Utilizzo CPU:** 12%"));
    assert!(stats_text.contains("**Temperatura CPU:** 45°C"));
    assert!(stats_text.contains("**Memoria libera:** 8.5 GB"));
    assert!(stats_text.contains("**Utilizzo disco:** 450 GB"));
}

#[test]
fn unknown_locale_is_answered_in_english() {
    let tr = sample_translations();
    assert_eq!(
        t(&tr, "You are not authorized to use this bot", "xx", None),
        t(&tr, "You are not authorized to use this bot", "en", None)
    );
}

#[test]
fn missing_english_entry_falls_back_to_key() {
    let tr = sample_translations();
    assert_eq!(t(&tr, "Send a magnet link", "es", None), "Send a magnet link");
}

#[test]
fn non_string_values_are_skipped() {
    let tr = sample_translations();
    assert_eq!(t(&tr, "Number", "it", None), "Number");
}

#[test]
fn translate_uses_user_locale_or_english() {
    let tr = sample_translations();
    let it = "it".to_string();
    assert_eq!(
        translate(&tr, Some(&it), "You are not authorized to use this bot", None),
        "Non sei autorizzato ad usare questo bot"
    );
    assert_eq!(
        translate(&tr, None, "You are not authorized to use this bot", None),
        "You are not authorized to use this bot"
    );
}

#[test]
fn every_placeholder_occurrence_is_replaced() {
    let tr = Translations::new();
    let vars = vec![("x".to_string(), "1".to_string())];
    assert_eq!(t(&tr, "{x}+{x}={y}", "en", Some(&vars)), "1+1={y}");
}

#[test]
fn later_source_of_a_locale_wins() {
    let sources = vec![
        ("en".to_string(), r#"{"k": "first"}"#.to_string()),
        ("en".to_string(), r#"{"k": "second"}"#.to_string()),
        ("en".to_string(), "not json".to_string()),
    ];
    let tr = Translations::from_json_sources(&sources);
    assert_eq!(t(&tr, "k", "en", None), "second");
}

#[test]
fn variables_are_filled_in_ascending_name_order() {
    let tr = Translations::new();
    let vars = vec![("b".to_string(), "x".to_string()), ("a".to_string(), "{b}".to_string())];
    assert_eq!(t(&tr, "{a}", "en", Some(&vars)), "x");
    let dup = vec![("a".to_string(), "1".to_string()), ("a".to_string(), "2".to_string())];
    assert_eq!(t(&tr, "{a}", "en", Some(&dup)), "2");
}
