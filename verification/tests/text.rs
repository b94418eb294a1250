use mod_plugins::error::{CompileError, ErrorKind};
use mod_plugins::grammar::{
    filter_group, groups_filled, mutable_group, pick_groups, query_name, read_phase, read_rank,
    some_mutable, split_at_commas,
};
use mod_plugins::kind::{PhaseExpr, Rank};
use mod_plugins::plugin::derive_name;
use mod_plugins::text::{
    copy_groups, copy_range, copy_texts, decimal, read_number, space_between, spell, text_eq,
    texts_eq, word_char,
};
use mod_plugins::token::{meta_to_strings, tokens_to_strings, Delimiter, Token};

fn strings(items: &[&str]) -> Vec<String> {
    items.iter().map(|s| s.to_string()).collect()
}

#[test]
fn decimal_writes_numbers() {
    assert_eq!(decimal(0), "0");
    assert_eq!(decimal(7), "7");
    assert_eq!(decimal(10), "10");
    assert_eq!(decimal(12345), "12345");
    assert_eq!(decimal(4294967295), "4294967295");
}

#[test]
fn read_number_reads_decimal_digits() {
    assert_eq!(read_number("0"), Some(0));
    assert_eq!(read_number("42"), Some(42));
    assert_eq!(read_number("0042"), Some(42));
    assert_eq!(read_number("4294967295"), Some(u32::MAX));
    assert_eq!(read_number("4294967296"), None);
    assert_eq!(read_number("99999999999999999999"), None);
    assert_eq!(read_number(""), None);
    assert_eq!(read_number("+5"), None);
    assert_eq!(read_number("-5"), None);
    assert_eq!(read_number("5u32"), None);
    assert_eq!(read_number("١٢"), None);
}

#[test]
fn decimal_and_read_number_round_trip() {
    for n in [0usize, 1, 9, 10, 99, 100, 4096, 65535, 4294967295] {
        assert_eq!(read_number(&decimal(n)), Some(n as u32));
    }
}

#[test]
fn text_equality() {
    assert!(text_eq("startup", "startup"));
    assert!(!text_eq("startup", "Startup"));
    assert!(!text_eq("a", "ab"));
    assert!(text_eq("", ""));
    assert!(texts_eq(&strings(&["a", "b"]), &strings(&["a", "b"])));
    assert!(!texts_eq(&strings(&["a", "b"]), &strings(&["a"])));
    assert!(!texts_eq(&strings(&["a", "b"]), &strings(&["a", "c"])));
    assert!(texts_eq(&strings(&[]), &strings(&[])));
}

#[test]
fn copies_keep_content() {
    let texts = strings(&["a", "b", "c", "d"]);
    assert_eq!(copy_texts(&texts), texts);
    assert_eq!(copy_range(&texts, 1, 3), strings(&["b", "c"]));
    assert_eq!(copy_range(&texts, 2, 2), strings(&[]));
    let groups = vec![strings(&["a"]), strings(&[]), strings(&["b", "c"])];
    assert_eq!(copy_groups(&groups), groups);
}

#[test]
fn plugin_name_is_the_camel_case_of_the_module_name() {
    assert_eq!(derive_name("test_plugin"), "TestPlugin");
    assert_eq!(derive_name("field_test"), "FieldTest");
    assert_eq!(derive_name("game"), "Game");
    assert_eq!(derive_name("a_b_c"), "ABC");
    assert_eq!(derive_name("my_2d_world"), "My2dWorld");
    assert_eq!(derive_name(""), "");
}

#[test]
fn plugin_name_skips_empty_words() {
    assert_eq!(derive_name("_private_mod"), "PrivateMod");
    assert_eq!(derive_name("double__score_"), "DoubleScore");
    assert_eq!(derive_name("___"), "");
}

#[test]
fn plugin_name_uses_the_unicode_upper_case() {
    assert_eq!(derive_name("élan_vital"), "ÉlanVital");
    assert_eq!(derive_name("straße_ßig"), "StraßeSig");
}

#[test]
fn tokens_are_flattened_in_order() {
    let tokens = vec![
        Token::Ident("With".to_string()),
        Token::Punct("<".to_string()),
        Token::Ident("A".to_string()),
        Token::Punct(">".to_string()),
        Token::Punct(",".to_string()),
        Token::Group(
            Delimiter::Parenthesis,
            vec![
                Token::Literal("1".to_string()),
                Token::Group(Delimiter::Bracket, vec![]),
                Token::Group(
                    Delimiter::Brace,
                    vec![Token::Ident("deep".to_string()), Token::Literal("\"s\"".to_string())],
                ),
                Token::Group(Delimiter::Invisible, vec![Token::Ident("bare".to_string())]),
                Token::Punct("+".to_string()),
            ],
        ),
        Token::Ident("end".to_string()),
    ];
    assert_eq!(
        tokens_to_strings(&tokens),
        strings(&[
            "With", "<", "A", ">", ",", "(", "1", "[", "]", "{", "deep", "\"s\"", "}", "bare",
            "+", ")", "end"
        ])
    );
    assert_eq!(tokens_to_strings(&Vec::new()), strings(&[]));
}

#[test]
fn a_group_is_forwarded_with_its_brackets() {
    let grouped = vec![
        Token::Ident("Level".to_string()),
        Token::Group(Delimiter::Parenthesis, vec![Token::Ident("Two".to_string())]),
    ];
    let bare = vec![Token::Ident("Level".to_string()), Token::Ident("Two".to_string())];
    assert_eq!(tokens_to_strings(&grouped), strings(&["Level", "(", "Two", ")"]));
    assert_eq!(tokens_to_strings(&bare), strings(&["Level", "Two"]));
    assert_ne!(tokens_to_strings(&grouped), tokens_to_strings(&bare));
    assert_eq!(spell(&tokens_to_strings(&grouped)), "Level(Two)");
    assert_eq!(spell(&tokens_to_strings(&bare)), "Level Two");
}

#[test]
fn spelling_keeps_words_apart_and_punctuation_together() {
    assert_eq!(spell(&strings(&[])), "");
    assert_eq!(spell(&strings(&["TestState", ":", ":", "Red"])), "TestState::Red");
    assert_eq!(spell(&strings(&["&", "mut", "Transform"])), "&mut Transform");
    assert_eq!(spell(&strings(&["With", "<", "Visibility", ">"])), "With<Visibility>");
    assert_eq!(
        spell(&strings(&["bevy", ":", ":", "prelude", ":", ":", "OnAdd"])),
        "bevy::prelude::OnAdd"
    );
    assert_eq!(spell(&strings(&["Score", "(", "7", ",", "x", ")"])), "Score(7,x)");
    assert_eq!(spell(&strings(&["&", "'", "a", "mut", "T"])), "&'a mut T");
    assert_eq!(spell(&strings(&["dyn", "Fn", "(", ")", "-", ">", "u8"])), "dyn Fn()->u8");
    assert_eq!(spell(&strings(&["name", "\"text\""])), "name \"text\"");
    assert_eq!(spell(&strings(&["a", "", "b"])), "ab");
    assert!(space_between("a", "b"));
    assert!(space_between("a1", "_b"));
    assert!(space_between("é", "ß"));
    assert!(!space_between("a", "("));
    assert!(!space_between(")", "a"));
    assert!(!space_between("", "a"));
    assert!(!space_between("a", ""));
    for c in ['a', 'z', 'A', 'Z', '0', '9', '_', '"', 'é'] {
        assert!(word_char(c));
    }
    for c in ['(', ')', ':', ',', '&', '\'', ' ', '<', '-', '`', '{', '@', '['] {
        assert!(!word_char(c));
    }
}

#[test]
fn a_bare_tag_has_no_strings() {
    assert_eq!(meta_to_strings(&None), strings(&[]));
    assert_eq!(
        meta_to_strings(&Some(vec![Token::Ident("KeyboardInput".to_string())])),
        strings(&["KeyboardInput"])
    );
}

#[test]
fn commas_separate_groups() {
    assert_eq!(split_at_commas(&strings(&[])), vec![strings(&[])]);
    assert_eq!(split_at_commas(&strings(&["a"])), vec![strings(&["a"])]);
    assert_eq!(
        split_at_commas(&strings(&["a", "b", ",", "c"])),
        vec![strings(&["a", "b"]), strings(&["c"])]
    );
    assert_eq!(
        split_at_commas(&strings(&[",", "a", ",", ",", "b", ","])),
        vec![strings(&[]), strings(&["a"]), strings(&[]), strings(&["b"]), strings(&[])]
    );
    assert_eq!(
        split_at_commas(&strings(&["Pair", "(", "a", ",", "b", ")", ",", "c"])),
        vec![strings(&["Pair", "(", "a", ",", "b", ")"]), strings(&["c"])]
    );
    assert_eq!(
        split_at_commas(&strings(&["[", "{", ",", "}", ",", "]", ",", "{", ",", "}"])),
        vec![strings(&["[", "{", ",", "}", ",", "]"]), strings(&["{", ",", "}"])]
    );
    assert_eq!(
        split_at_commas(&strings(&[")", ",", "(", ",", "x"])),
        vec![strings(&[")"]), strings(&["(", ",", "x"])]
    );
    assert!(groups_filled(&vec![strings(&["a"]), strings(&["b"])]));
    assert!(!groups_filled(&vec![strings(&["a"]), strings(&[])]));
    assert!(groups_filled(&Vec::new()));
}

#[test]
fn filter_vocabulary() {
    for word in ["With", "Without", "Added", "Removed", "Changed"] {
        assert!(filter_group(&strings(&[word, "<", "A", ">"])));
        assert!(!filter_group(&strings(&[word])));
        assert!(!filter_group(&strings(&[word, "A"])));
    }
    assert!(!filter_group(&strings(&["Option", "<", "A", ">"])));
    assert!(!filter_group(&strings(&["with", "<", "A", ">"])));
    assert!(!filter_group(&strings(&[])));
    let groups = vec![
        strings(&["&", "A"]),
        strings(&["With", "<", "B", ">"]),
        strings(&["Entity"]),
        strings(&["Changed", "<", "A", ">"]),
    ];
    assert_eq!(pick_groups(&groups, false), vec![strings(&["&", "A"]), strings(&["Entity"])]);
    assert_eq!(
        pick_groups(&groups, true),
        vec![strings(&["With", "<", "B", ">"]), strings(&["Changed", "<", "A", ">"])]
    );
}

#[test]
fn mutability_is_an_ampersand_followed_by_mut() {
    assert!(mutable_group(&strings(&["&", "mut", "A"])));
    assert!(mutable_group(&strings(&["Option", "<", "&", "mut", "A", ">"])));
    assert!(!mutable_group(&strings(&["&", "A"])));
    assert!(!mutable_group(&strings(&["mut", "&", "A"])));
    assert!(!mutable_group(&strings(&["&", "'", "a", "mut", "A"])));
    assert!(!mutable_group(&strings(&["&"])));
    assert!(!mutable_group(&strings(&[])));
    assert!(some_mutable(&vec![strings(&["&", "A"]), strings(&["&", "mut", "B"])]));
    assert!(!some_mutable(&vec![strings(&["&", "A"]), strings(&["Entity"])]));
    assert!(!some_mutable(&Vec::new()));
}

#[test]
fn query_names_are_query_and_digits() {
    assert!(query_name("query1"));
    assert!(query_name("query12"));
    assert!(query_name("query007"));
    assert!(!query_name("query"));
    assert!(!query_name("query1a"));
    assert!(!query_name("Query1"));
    assert!(!query_name("aquery1"));
    assert!(!query_name("quer"));
    assert!(!query_name(""));
}

#[test]
fn phases_are_read_from_system_tokens() {
    assert_eq!(read_phase(&strings(&["startup"])), Some(PhaseExpr::Startup));
    assert_eq!(read_phase(&strings(&["update"])), Some(PhaseExpr::Update));
    assert_eq!(
        read_phase(&strings(&["enter", ",", "S", ":", ":", "A"])),
        Some(PhaseExpr::OnEnter(strings(&["S", ":", ":", "A"])))
    );
    assert_eq!(
        read_phase(&strings(&["exit", ",", "done"])),
        Some(PhaseExpr::OnExit(strings(&["done"])))
    );
    assert_eq!(read_phase(&strings(&[])), None);
    assert_eq!(read_phase(&strings(&["enter"])), None);
    assert_eq!(read_phase(&strings(&["enter", ","])), None);
    assert_eq!(read_phase(&strings(&["update", ",", "x"])), None);
    assert_eq!(read_phase(&strings(&["startup", "update"])), None);
    assert_eq!(read_phase(&strings(&["Startup"])), None);
}

#[test]
fn ranks_are_read_from_priority_tokens() {
    assert_eq!(read_rank(&strings(&["HIGH"])), Some(Rank::High));
    assert_eq!(read_rank(&strings(&["CUSTOM", ",", "12"])), Some(Rank::Custom(12)));
    assert_eq!(read_rank(&strings(&["high"])), None);
    assert_eq!(read_rank(&strings(&["CUSTOM", ",", "-1"])), None);
    assert_eq!(read_rank(&strings(&["HIGH", ",", "12"])), None);
    assert_eq!(read_rank(&strings(&[])), None);
}

#[test]
fn diagnostic_names_the_declaration_and_the_tag() {
    let error = CompileError::new(ErrorKind::UnknownTag, "odd", "foo");
    assert_eq!(error.kind_name(), "UnknownTag");
    assert_eq!(error.message(), "UnknownTag in `odd`: tag `foo`");
    let kinds = [
        (ErrorKind::MalformedTag, "MalformedTag"),
        (ErrorKind::UnknownTag, "UnknownTag"),
        (ErrorKind::OrderingOnNonSystem, "OrderingOnNonSystem"),
        (ErrorKind::UnresolvedOrderingReference, "UnresolvedOrderingReference"),
        (ErrorKind::UnknownScopeKind, "UnknownScopeKind"),
        (ErrorKind::DuplicateClassification, "DuplicateClassification"),
    ];
    for (kind, name) in kinds {
        assert_eq!(CompileError::new(kind, "d", "t").kind_name(), name);
    }
}
