use ipa_phonetic::dictionary::{parse_record, Dictionary};
use ipa_phonetic::mapping::{create_ipa_to_english_map, ipa_to_english_sound, SymbolTable};
use ipa_phonetic::text::{chars_of, split_at_flags, split_words};
use ipa_phonetic::transcribe::{
    combined_mapping, process_request, strip_delimiters, word_to_phonetic,
};

fn lines(src: &[&str]) -> Vec<String> {
    src.iter().map(|l| l.to_string()).collect()
}

fn sample_dictionary() -> Dictionary {
    Dictionary::from_lines(&lines(&[
        "cat /kæt/",
        "Church /tʃɜːtʃ/",
        "a /eɪ/",
        "b /biː/",
        "c /siː/",
        "lonely",
        "the ðə ði",
    ]))
}

#[test]
fn empty_text_gives_no_pairs() {
    let dict = sample_dictionary();
    let table = create_ipa_to_english_map();
    assert!(process_request(&dict, Some(&table), "").is_empty());
    assert!(process_request(&dict, None, " \t\n  ").is_empty());
}

#[test]
fn cat_becomes_k_a_t() {
    let dict = sample_dictionary();
    let table = create_ipa_to_english_map();
    let r = process_request(&dict, Some(&table), "cat");
    assert_eq!(r.len(), 1);
    assert_eq!(r[0].text, "cat");
    assert_eq!(r[0].phonetic, "k-a-t");
}

#[test]
fn results_keep_input_order() {
    let dict = sample_dictionary();
    let r = process_request(&dict, None, "a b c");
    let texts: Vec<&str> = r.iter().map(|p| p.text.as_str()).collect();
    let sounds: Vec<&str> = r.iter().map(|p| p.phonetic.as_str()).collect();
    assert_eq!(texts, vec!["a", "b", "c"]);
    assert_eq!(sounds, vec!["/eɪ/", "/biː/", "/siː/"]);
}

#[test]
fn words_split_on_any_whitespace_run() {
    let dict = Dictionary::new();
    let r = process_request(&dict, None, "  hello,\tworld \n again  ");
    let texts: Vec<&str> = r.iter().map(|p| p.text.as_str()).collect();
    assert_eq!(texts, vec!["hello,", "world", "again"]);
    assert_eq!(r[0].phonetic, "hello,");
}

#[test]
fn two_symbol_entry_takes_precedence() {
    let table = create_ipa_to_english_map();
    assert_eq!(ipa_to_english_sound("tʃu", &table), "ch-oo");
    assert_eq!(ipa_to_english_sound("dʒʌmp", &table), "j-u-m-p");
    assert_eq!(ipa_to_english_sound("aɪ", &table), "ai");
}

#[test]
fn single_symbol_used_at_end_of_string() {
    let table = create_ipa_to_english_map();
    assert_eq!(ipa_to_english_sound("t", &table), "t");
    assert_eq!(ipa_to_english_sound("beɪt", &table), "b-ay-t");
}

#[test]
fn unmapped_symbols_pass_through() {
    let table = create_ipa_to_english_map();
    assert_eq!(ipa_to_english_sound("q", &table), "q");
    assert_eq!(ipa_to_english_sound("ʃ?y", &table), "sh-?-y");
    assert_eq!(ipa_to_english_sound("", &table), "");
}

#[test]
fn stress_and_length_are_tokens() {
    let table = create_ipa_to_english_map();
    assert_eq!(ipa_to_english_sound("ˈæp", &table), "'-a-p");
    assert_eq!(ipa_to_english_sound("ˌiː", &table), ",-ee-:");
}

#[test]
fn custom_table_pair_without_single() {
    let mut table = SymbolTable::new();
    table.insert("tʃ", "CH");
    assert_eq!(ipa_to_english_sound("tʃa", &table), "CH-a");
    assert_eq!(ipa_to_english_sound("ta", &table), "t-a");
    table.insert("t", "T");
    table.insert("tʃ", "C");
    assert_eq!(ipa_to_english_sound("tʃt", &table), "C-T");
}

#[test]
fn lookup_ignores_case() {
    let dict = sample_dictionary();
    assert_eq!(dict.lookup("cat"), "/kæt/");
    assert_eq!(dict.lookup("CAT"), "/kæt/");
    assert_eq!(dict.lookup("church"), "/tʃɜːtʃ/");
    assert_eq!(word_to_phonetic(&dict, "ChUrCh"), "/tʃɜːtʃ/");
}

#[test]
fn unknown_word_passes_through() {
    let dict = sample_dictionary();
    assert_eq!(dict.lookup("Dog"), "Dog");
    assert_eq!(Dictionary::new().lookup("cat"), "cat");
}

#[test]
fn lookup_folded_uses_given_key() {
    let dict = sample_dictionary();
    assert_eq!(dict.lookup_folded("cat", "CAT"), "/kæt/");
    assert_eq!(dict.lookup_folded("dog", "DOG"), "DOG");
}

#[test]
fn malformed_line_is_skipped() {
    let dict = sample_dictionary();
    assert_eq!(dict.lookup("lonely"), "lonely");
    assert_eq!(dict.lookup("cat"), "/kæt/");
    assert!(parse_record("lonely").is_none());
    assert!(parse_record("   ").is_none());
}

#[test]
fn record_joins_transcription_fields() {
    let dict = sample_dictionary();
    assert_eq!(dict.lookup("the"), "ðə ði");
    let r = parse_record("  The\tðə   ði ").unwrap();
    assert_eq!(r.0, "the");
    assert_eq!(r.1, "ðə ði");
}

#[test]
fn later_line_replaces_earlier() {
    let dict = Dictionary::from_lines(&lines(&["read /riːd/", "READ /rɛd/"]));
    assert_eq!(dict.lookup("read"), "/rɛd/");
}

#[test]
fn building_twice_gives_same_lookups() {
    let src = lines(&["cat /kæt/", "dog /dɒɡ/", "x", "Cat /kat/"]);
    let a = Dictionary::from_lines(&src);
    let b = Dictionary::from_lines(&src);
    for w in ["cat", "CAT", "dog", "x", "bird"] {
        assert_eq!(a.lookup(w), b.lookup(w));
    }
    assert_eq!(a.lookup("cat"), "/kat/");
}

#[test]
fn delimiters_are_stripped_once() {
    assert_eq!(strip_delimiters("/kæt/"), "kæt");
    assert_eq!(strip_delimiters("[kæt]"), "kæt");
    assert_eq!(strip_delimiters("//a//"), "/a/");
    assert_eq!(strip_delimiters("kæt"), "kæt");
    assert_eq!(strip_delimiters("/kæt]"), "/kæt]");
    assert_eq!(strip_delimiters("/"), "/");
    assert_eq!(strip_delimiters("//"), "");
}

#[test]
fn both_pipelines_are_selectable() {
    let dict = sample_dictionary();
    let table = create_ipa_to_english_map();
    assert_eq!(combined_mapping(&dict, None, "church"), "/tʃɜːtʃ/");
    assert_eq!(combined_mapping(&dict, Some(&table), "church"), "ch-er-:-ch");
    assert_eq!(combined_mapping(&dict, Some(&table), "zzz"), "z-z-z");
}

#[test]
fn split_and_chars_helpers() {
    assert_eq!(split_words(" a  bc\u{3000}d "), vec!["a", "bc", "d"]);
    assert!(split_words("").is_empty());
    assert_eq!(chars_of("tʃu"), vec!['t', 'ʃ', 'u']);
}

#[test]
fn standard_table_entries() {
    let table = create_ipa_to_english_map();
    assert_eq!(table.sound_of("θ").map(|s| s.as_str()), Some("th"));
    assert_eq!(table.sound_of("ɪə").map(|s| s.as_str()), Some("eer"));
    assert_eq!(table.sound_of("ʔ").map(|s| s.as_str()), Some("'"));
    assert!(table.sound_of("q").is_none());
}

#[test]
fn split_follows_given_separators() {
    let cs = vec!['a', 'x', 'b', 'x', 'x', 'c', 'x'];
    let flags = vec![false, true, false, true, true, false, true];
    assert_eq!(split_at_flags(&cs, &flags), vec!["a", "b", "c"]);
    let spaces = vec![' ', 'a'];
    assert_eq!(split_at_flags(&spaces, &vec![false, false]), vec![" a"]);
    assert!(split_at_flags(&Vec::new(), &Vec::new()).is_empty());
}
