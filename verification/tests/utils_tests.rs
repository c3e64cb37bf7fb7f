use magpie::utils::{
    cpu_temp_text,
    convert_eta, convert_size, escape_markdown, extract_clean_magnet, extract_hash_from_magnet,
    magnet_hash_sliceable, magnet_text_sliceable, percent_encode, render_progress_bar,
};

/// The floating-point part of a progress bar, as the bot computes it: the
/// fraction clamped to 0..=1, the filled cells and the whole percentage
/// rounded down.
fn format_progress(progress: f64, width: usize) -> String {
    let progress = progress.max(0.0).min(1.0);
    let filled = (progress * width as f64).floor() as usize;
    let percent = (progress * 100.0).floor() as u32;
    render_progress_bar(percent, filled, width)
}

#[test]
fn test_percent_encode() {
    assert_eq!(percent_encode("hello world"), "hello%20world");
    assert_eq!(percent_encode("a/b/c.txt"), "a/b/c.txt");
    assert_eq!(percent_encode("Utada Hikaru - First Love (1999) [FLAC]/4. First Love (John Luongo Remix).flac"), "Utada%20Hikaru%20-%20First%20Love%20%281999%29%20%5BFLAC%5D/4.%20First%20Love%20%28John%20Luongo%20Remix%29.flac");
}

#[test]
fn test_convert_size() {
    assert_eq!(convert_size(0), "0 B");
    assert_eq!(convert_size(1024), "1 KB");
    assert_eq!(convert_size(1536), "1.5 KB");
    assert_eq!(convert_size(1048576), "1 MB");
    assert_eq!(convert_size(1073741824), "1 GB");
}

#[test]
fn test_convert_eta() {
    assert_eq!(convert_eta(-1), "∞");
    assert_eq!(convert_eta(8640000), "∞");
    assert_eq!(convert_eta(0), "00:00:00");
    assert_eq!(convert_eta(45), "00:00:45");
    assert_eq!(convert_eta(3665), "01:01:05");
    assert_eq!(convert_eta(90065), "1 day, 01:01:05");
    assert_eq!(convert_eta(176465), "2 days, 01:01:05");
}

#[test]
fn test_format_progress() {
    assert_eq!(format_progress(0.0, 10), "  0%|░░░░░░░░░░|\n");
    assert_eq!(format_progress(0.5, 10), " 50%|█████░░░░░|\n");
    assert_eq!(format_progress(1.0, 10), "100%|██████████|\n");
    assert_eq!(format_progress(1.5, 10), "100%|██████████|\n");
    assert_eq!(format_progress(-0.5, 10), "  0%|░░░░░░░░░░|\n");
}

#[test]
fn test_escape_markdown() {
    assert_eq!(escape_markdown("hello-world"), "hello\\-world");
    assert_eq!(escape_markdown("user_name"), "user\\_name");
    assert_eq!(escape_markdown("*bold*"), "\\*bold\\*");
    assert_eq!(escape_markdown("[link]"), "\\[link\\]");
    assert_eq!(escape_markdown("text."), "text\\.");
}

#[test]
fn test_extract_clean_magnet() {
    let m1 = "magnet:?xt=urn:btih:feb1f53aa5b3a1660d853c158710175f90d20074&dn=test";
    assert_eq!(extract_clean_magnet(m1), Some(m1.to_string()));

    let m2 = "magnet:?\nxt=urn:btih:feb1f53aa5b3a1660d853c158710175f90d20074&dn=test";
    assert_eq!(extract_clean_magnet(m2), Some(m1.to_string()));

    let m3 = "magnet:?xt=urn:btih:feb1f53aa5b3a1660d853c158710175f90d20074&dn=test download this";
    assert_eq!(extract_clean_magnet(m3), Some("magnet:?xt=urn:btih:feb1f53aa5b3a1660d853c158710175f90d20074&dn=test%20download%20this".to_string()));

    let m4 = "magnet:?dn=test";
    assert_eq!(extract_clean_magnet(m4), None);

    let m5_input = "magnet:?xt=urn:btih:feb1f53aa5b3a1660d853c158710175f90d20074&dn=BanG Dream! &tr=http://nyaa.tracker.wf:7777/announce";
    let m5_expected = "magnet:?xt=urn:btih:feb1f53aa5b3a1660d853c158710175f90d20074&dn=BanG%20Dream!&tr=http://nyaa.tracker.wf:7777/announce";
    assert_eq!(extract_clean_magnet(m5_input), Some(m5_expected.to_string()));

    let m6_input = "magnet:?\nxt=urn:btih:feb1f53aa5b3a1660d853c158710175f90d20074&dn=%5BJMAX%5D%20%5B2026.03.21%5D%20BanG%20Dream%21%20%E3%83%8F%E3%83%BC%E3%83%9F%E3%83%83%E3%83%88%E3%83%BB%E3%83%8D%E3%83%BC%E3%83%A0%E3%83%BB%E3%83%96%E3%83%AB%E3%83%BC%20-%20\n%20%E8%A8%B1%E5%A9%9A%E3%83%BB%E3%83%9D%E3%83%BC%E3%83%88%E3%83%AC%E3%83%BC%E3%83%88%20%28Cover%29%20%5BFLAC%2096kHz%2F24bit%5D&tr=http%3A%2F%2Fnyaa.tracker.wf%3A7777%2Fannounce&tr=udp%3A%2F%2Fopen.stealth.si%3A80%2Fannounce";
    let m6_expected = "magnet:?xt=urn:btih:feb1f53aa5b3a1660d853c158710175f90d20074&dn=%5BJMAX%5D%20%5B2026.03.21%5D%20BanG%20Dream%21%20%E3%83%8F%E3%83%BC%E3%83%9F%E3%83%83%E3%83%88%E3%83%BB%E3%83%8D%E3%83%BC%E3%83%A0%E3%83%BB%E3%83%96%E3%83%AB%E3%83%BC%20-%20%20%E8%A8%B1%E5%A9%9A%E3%83%BB%E3%83%9D%E3%83%BC%E3%83%88%E3%83%AC%E3%83%BC%E3%83%88%20%28Cover%29%20%5BFLAC%2096kHz%2F24bit%5D&tr=http%3A%2F%2Fnyaa.tracker.wf%3A7777%2Fannounce&tr=udp%3A%2F%2Fopen.stealth.si%3A80%2Fannounce";
    assert_eq!(extract_clean_magnet(m6_input), Some(m6_expected.to_string()));
}

#[test]
fn test_extract_hash_from_magnet_standard() {
    let hash = "aabbccddeeff00112233445566778899aabbccdd";
    let magnet = format!("magnet:?xt=urn:btih:{}&dn=test&tr=udp://tracker.example.com", hash);
    assert_eq!(extract_hash_from_magnet(&magnet).as_deref(), Some(hash));
}

#[test]
fn test_extract_hash_no_btih_field() {
    assert_eq!(extract_hash_from_magnet("magnet:?dn=noxtfield"), None);
}

#[test]
fn test_extract_hash_stops_at_ampersand() {
    let h = extract_hash_from_magnet("magnet:?xt=urn:btih:deadbeef1234567890abcdef1234567890abcdef&dn=name").unwrap();
    assert!(!h.contains('&'));
}

#[test]
fn hash_marker_is_found_in_any_case() {
    assert_eq!(
        extract_hash_from_magnet("MAGNET:?XT=URN:BTIH:ABCDEF&dn=x").as_deref(),
        Some("ABCDEF")
    );
}

#[test]
fn hash_runs_to_the_end_without_ampersand() {
    assert_eq!(extract_hash_from_magnet("xt=urn:btih:abc").as_deref(), Some("abc"));
}

#[test]
fn hash_is_cut_at_the_offset_of_the_lower_cased_text() {
    // "İ" lower-cases to three bytes where it takes two, so the offset found
    // in the lower-cased text falls inside the "é" of the text itself.
    assert!(!magnet_hash_sliceable("İxt=urn:btih:éa"));
    // With a character boundary there, the text is cut one byte late.
    assert!(magnet_hash_sliceable("İxt=urn:btih:abc"));
    assert_eq!(extract_hash_from_magnet("İxt=urn:btih:abc").as_deref(), Some("bc"));
    assert!(magnet_hash_sliceable("magnet:?dn=noxtfield"));
    // "ẞ" lower-cases to two bytes where it takes three, so the offset of
    // `magnet:?` found in the lower-cased text falls inside the "é".
    assert!(!magnet_text_sliceable("ẞémagnet:?xt=urn:btih:a"));
    assert!(magnet_text_sliceable("no link here"));
}

#[test]
fn convert_size_rounds_to_hundredths() {
    assert_eq!(convert_size(1), "1 B");
    assert_eq!(convert_size(1023), "1023 B");
    assert_eq!(convert_size(1126), "1.1 KB");
    assert_eq!(convert_size(1048575), "1024 KB");
    assert_eq!(convert_size(1099511627776), "1 TB");
    assert_eq!(convert_size(1125899906842624), "1 PB");
    assert_eq!(convert_size(1152921504606846976), "1 EB");
    assert_eq!(convert_size(524288), "512 KB");
    assert_eq!(convert_size(104857600), "100 MB");
}

#[test]
fn convert_eta_one_day_exactly() {
    assert_eq!(convert_eta(86400), "1 day, 00:00:00");
}

#[test]
fn escape_markdown_leaves_plain_text() {
    assert_eq!(escape_markdown("plain text"), "plain text");
    assert_eq!(escape_markdown("a|b!c"), "a\\|b\\!c");
}

#[test]
fn percent_encode_non_ascii_bytes() {
    assert_eq!(percent_encode("é"), "%C3%A9");
    assert_eq!(percent_encode("~_.-"), "~_.-");
}

#[test]
fn clean_magnet_found_inside_text() {
    assert_eq!(
        extract_clean_magnet("please add magnet:?xt=urn:btih:abc&dn=x thanks"),
        Some("magnet:?xt=urn:btih:abc&dn=x%20thanks".to_string())
    );
    assert_eq!(extract_clean_magnet("no link here"), None);
}

#[test]
fn cpu_temperature_from_millidegrees() {
    assert_eq!(cpu_temp_text(Some("45123\n")), "45");
    assert_eq!(cpu_temp_text(Some("  -1500 ")), "-1");
    assert_eq!(cpu_temp_text(Some("+999")), "0");
    assert_eq!(cpu_temp_text(Some("abc")), "N/A");
    assert_eq!(cpu_temp_text(Some("")), "N/A");
    assert_eq!(cpu_temp_text(None), "N/A");
}

fn percent_decode(s: &str) -> Vec<u8> {
    let b = s.as_bytes();
    let mut out = Vec::new();
    let mut i = 0;
    while i < b.len() {
        if b[i] == b'%' && i + 2 < b.len() {
            out.push(u8::from_str_radix(&s[i + 1..i + 3], 16).unwrap());
            i += 3;
        } else {
            out.push(b[i]);
            i += 1;
        }
    }
    out
}

#[test]
fn percent_encoding_decodes_back() {
    for input in ["hello world", "a/b/c.txt", "ünïcödé & 100% [x]", "", "%25"] {
        let enc = percent_encode(input);
        assert!(enc.is_ascii());
        assert_eq!(percent_decode(&enc), input.as_bytes());
    }
}

#[test]
fn cleaning_a_clean_magnet_link_changes_nothing() {
    let texts = [
        "see MAGNET:?xt=urn:btih:abc&dn=My Movie 2024 tr=udp://t.example:80 trailing",
        "magnet:?xt=urn:btih:abc",
        "x magnet:?dn=a b &xt=urn:btih:ff",
    ];
    for text in texts {
        let r = extract_clean_magnet(text).unwrap();
        assert!(!r.contains(char::is_whitespace));
        assert!(r[..8].eq_ignore_ascii_case("magnet:?"));
        assert_eq!(extract_clean_magnet(&r), Some(r.clone()));
    }
}

#[test]
fn clean_magnet_extraction_is_idempotent() {
    let text = "look: MAGNET:?xt=urn:btih:ABC dn=Some Movie tr=udp://t.example:80 thanks";
    let first = extract_clean_magnet(text).unwrap();
    assert!(first.starts_with("MAGNET:?"));
    assert!(!first.contains(' '));
    assert_eq!(extract_clean_magnet(&first), Some(first.clone()));
}
