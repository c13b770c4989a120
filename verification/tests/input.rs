use embedder::error::EmbedError;
use embedder::input::{
    chunking_tokenizer, encode, has_padding, has_truncation, model_input, prepare_input,
    sound_truncation, token_id, tokenized, widen, Padding, TextTokenizer, TokenEncoding,
    TokenizerSettings, Truncation, ADDED_TOKENS, MAX_PADDED_LENGTH,
};
use std::collections::HashMap;
use tokenizers::models::wordlevel::WordLevel;
use tokenizers::pre_tokenizers::whitespace::Whitespace;
use tokenizers::{PaddingParams, PaddingStrategy, Tokenizer, TruncationParams};

fn words(list: &[&str]) -> Vec<String> {
    list.iter().map(|w| w.to_string()).collect()
}

fn settings() -> TokenizerSettings {
    TokenizerSettings {
        vocab: words(&[
            "[PAD]", "[UNK]", "[CLS]", "[SEP]", "hello", "world", "##s", "again", ",", "emb",
            "##ed", "##ding",
        ]),
        unk_token: "[UNK]".to_string(),
        continuing_subword_prefix: "##".to_string(),
        max_input_chars_per_word: 100,
        clean_text: true,
        handle_chinese_chars: true,
        strip_accents: None,
        lowercase: true,
        cls_token: "[CLS]".to_string(),
        sep_token: "[SEP]".to_string(),
        truncation: None,
        padding: None,
    }
}

fn tokenizer() -> TextTokenizer {
    TextTokenizer::new(settings()).unwrap()
}

fn refused(settings: TokenizerSettings) -> Option<EmbedError> {
    TextTokenizer::new(settings).err()
}

#[test]
fn widen_keeps_every_value() {
    assert_eq!(widen(&vec![]), Vec::<i64>::new());
    assert_eq!(widen(&vec![0, 1, 101, u32::MAX]), vec![0i64, 1, 101, 4_294_967_295]);
}

#[test]
fn model_input_has_three_rows_of_the_token_count() {
    let encoding = TokenEncoding {
        ids: vec![101, 7592, 2088, 102],
        attention_mask: vec![1, 1, 1, 0],
        type_ids: vec![0, 0, 1, 1],
    };
    let input = model_input(&encoding).unwrap();
    assert_eq!(input.input_ids.dim(), (1, 4));
    assert_eq!(input.attention_mask.dim(), (1, 4));
    assert_eq!(input.token_type_ids.dim(), (1, 4));
    assert_eq!(input.input_ids.to_vec(), vec![101i64, 7592, 2088, 102]);
    assert_eq!(input.attention_mask.to_vec(), vec![1i64, 1, 1, 0]);
    assert_eq!(input.token_type_ids.to_vec(), vec![0i64, 0, 1, 1]);
}

#[test]
fn model_input_of_one_token() {
    let encoding = TokenEncoding {
        ids: vec![u32::MAX],
        attention_mask: vec![1],
        type_ids: vec![0],
    };
    let input = model_input(&encoding).unwrap();
    assert_eq!(input.input_ids.dim(), (1, 1));
    assert_eq!(input.input_ids.to_vec(), vec![4_294_967_295i64]);
}

#[test]
fn encoding_without_tokens_is_a_tokenization_failure() {
    let encoding = TokenEncoding {
        ids: vec![],
        attention_mask: vec![],
        type_ids: vec![],
    };
    assert_eq!(model_input(&encoding).err(), Some(EmbedError::Tokenization));
    let lopsided = TokenEncoding {
        ids: vec![],
        attention_mask: vec![1],
        type_ids: vec![],
    };
    assert_eq!(model_input(&lopsided).err(), Some(EmbedError::Tokenization));
}

#[test]
fn unequal_lengths_are_a_shape_failure() {
    let short_mask = TokenEncoding {
        ids: vec![1, 2, 3],
        attention_mask: vec![1, 1],
        type_ids: vec![0, 0, 0],
    };
    assert_eq!(model_input(&short_mask).err(), Some(EmbedError::TensorShape));
    let long_mask = TokenEncoding {
        ids: vec![1, 2, 3],
        attention_mask: vec![1, 1, 1, 1],
        type_ids: vec![0, 0, 0],
    };
    assert_eq!(model_input(&long_mask).err(), Some(EmbedError::TensorShape));
    let short_types = TokenEncoding {
        ids: vec![1, 2, 3],
        attention_mask: vec![1, 1, 1],
        type_ids: vec![],
    };
    assert_eq!(model_input(&short_types).err(), Some(EmbedError::TensorShape));
}

#[test]
fn tokenized_maps_the_outcome() {
    let encoding = TokenEncoding {
        ids: vec![3, 4],
        attention_mask: vec![1, 1],
        type_ids: vec![0, 1],
    };
    let passed = tokenized(Some(encoding)).unwrap();
    assert_eq!(passed.ids, vec![3, 4]);
    assert_eq!(passed.attention_mask, vec![1, 1]);
    assert_eq!(passed.type_ids, vec![0, 1]);
    assert_eq!(tokenized(None).err(), Some(EmbedError::Tokenization));
}

#[test]
fn token_id_is_the_last_place_of_the_token() {
    let vocab = words(&["a", "b", "a", "c"]);
    assert_eq!(token_id(&vocab, &"a".to_string()), Some(2));
    assert_eq!(token_id(&vocab, &"b".to_string()), Some(1));
    assert_eq!(token_id(&vocab, &"c".to_string()), Some(3));
    assert_eq!(token_id(&vocab, &"d".to_string()), None);
    assert_eq!(token_id(&vocab, &"".to_string()), None);
    assert_eq!(token_id(&Vec::new(), &"a".to_string()), None);
}

#[test]
fn sound_truncation_leaves_room_for_a_stride() {
    assert_eq!(ADDED_TOKENS, 2);
    let sound = |max_length, stride| sound_truncation(&Truncation { max_length, stride });
    assert!(sound(512, 0));
    assert!(sound(512, 509));
    assert!(!sound(512, 510));
    assert!(!sound(512, usize::MAX));
    assert!(sound(3, 0));
    assert!(!sound(3, 1));
    assert!(!sound(2, 0));
    assert!(!sound(1, 0));
    assert!(!sound(0, 0));
}

#[test]
fn encode_gives_the_word_pieces_between_the_two_added_tokens() {
    let tokenizer = tokenizer();
    let encoding = encode(&tokenizer, "Hello worlds, embedding").unwrap();
    assert_eq!(encoding.ids, vec![2, 4, 5, 6, 8, 9, 10, 11, 3]);
    assert_eq!(encoding.attention_mask, vec![1; 9]);
    assert_eq!(encoding.type_ids, vec![0; 9]);
    let unknown = encode(&tokenizer, "hello there").unwrap();
    assert_eq!(unknown.ids, vec![2, 4, 1, 3]);
}

#[test]
fn encode_is_the_same_on_the_same_text() {
    let tokenizer = tokenizer();
    let first = encode(&tokenizer, "world hello worlds").unwrap();
    let second = encode(&tokenizer, "world hello worlds").unwrap();
    assert_eq!(first.ids, second.ids);
    assert_eq!(first.ids, vec![2, 5, 4, 5, 6, 3]);
    let other = TextTokenizer::new(settings()).unwrap();
    assert_eq!(encode(&other, "world hello worlds").unwrap().ids, first.ids);
}

#[test]
fn switches_of_the_normalizer_are_taken_from_the_settings() {
    let mut cased = settings();
    cased.lowercase = false;
    let tokenizer = TextTokenizer::new(cased.clone()).unwrap();
    assert_eq!(encode(&tokenizer, "Hello hello").unwrap().ids, vec![2, 1, 4, 3]);
}

#[test]
fn a_repeated_token_has_the_id_of_its_last_place() {
    let mut repeated = settings();
    repeated.vocab.push("hello".to_string());
    let tokenizer = TextTokenizer::new(repeated.clone()).unwrap();
    assert_eq!(encode(&tokenizer, "hello world").unwrap().ids, vec![2, 12, 5, 3]);
    repeated.vocab.push("[CLS]".to_string());
    let tokenizer = TextTokenizer::new(repeated.clone()).unwrap();
    assert_eq!(encode(&tokenizer, "hello").unwrap().ids, vec![13, 12, 3]);
}

#[test]
fn tokenizer_failure_is_a_tokenization_failure() {
    let mut without_unknown = settings();
    without_unknown.unk_token = "[MISSING]".to_string();
    let tokenizer = TextTokenizer::new(without_unknown.clone()).unwrap();
    assert_eq!(encode(&tokenizer, "hello world").unwrap().ids, vec![2, 4, 5, 3]);
    assert_eq!(encode(&tokenizer, "hello stranger").err(), Some(EmbedError::Tokenization));
    assert_eq!(
        prepare_input(&tokenizer, "hello stranger").err(),
        Some(EmbedError::Tokenization)
    );
}

#[test]
fn prepare_input_builds_the_rows_from_the_text() {
    let tokenizer = tokenizer();
    let input = prepare_input(&tokenizer, "hello world").unwrap();
    assert_eq!(input.input_ids.dim(), (1, 4));
    assert_eq!(input.input_ids.to_vec(), vec![2i64, 4, 5, 3]);
    assert_eq!(input.attention_mask.to_vec(), vec![1i64, 1, 1, 1]);
    assert_eq!(input.token_type_ids.to_vec(), vec![0i64, 0, 0, 0]);
}

#[test]
fn empty_text_gives_the_two_added_tokens_alone() {
    let tokenizer = tokenizer();
    assert_eq!(encode(&tokenizer, "").unwrap().ids, vec![2, 3]);
    let input = prepare_input(&tokenizer, "").unwrap();
    assert_eq!(input.input_ids.dim(), (1, 2));
    assert_eq!(input.input_ids.to_vec(), vec![2i64, 3]);
    assert_eq!(input.attention_mask.to_vec(), vec![1i64, 1]);
    assert_eq!(encode(&tokenizer, " \t\n").unwrap().ids, vec![2, 3]);
}

#[test]
fn truncation_cuts_a_long_text() {
    let mut cut = settings();
    cut.truncation = Some(Truncation {
        max_length: 4,
        stride: 1,
    });
    let tokenizer = TextTokenizer::new(cut.clone()).unwrap();
    assert_eq!(encode(&tokenizer, "hello world again").unwrap().ids, vec![2, 4, 5, 3]);
    assert_eq!(encode(&tokenizer, "hello").unwrap().ids, vec![2, 4, 3]);
    let input = prepare_input(&tokenizer, "hello world again hello world").unwrap();
    assert_eq!(input.input_ids.dim(), (1, 4));
    cut.truncation = Some(Truncation {
        max_length: 3,
        stride: 0,
    });
    let tokenizer = TextTokenizer::new(cut.clone()).unwrap();
    assert_eq!(encode(&tokenizer, "hello world again").unwrap().ids, vec![2, 4, 3]);
}

#[test]
fn padding_fills_a_short_text() {
    let mut padded = settings();
    padded.padding = Some(Padding {
        length: 6,
        pad_token: "[PAD]".to_string(),
    });
    let tokenizer = TextTokenizer::new(padded.clone()).unwrap();
    let encoding = encode(&tokenizer, "hello").unwrap();
    assert_eq!(encoding.ids, vec![2, 4, 3, 0, 0, 0]);
    assert_eq!(encoding.attention_mask, vec![1, 1, 1, 0, 0, 0]);
    assert_eq!(encoding.type_ids, vec![0, 0, 0, 0, 0, 0]);
    let long = encode(&tokenizer, "hello world again hello world").unwrap();
    assert_eq!(long.ids, vec![2, 4, 5, 7, 4, 5, 3]);
    padded.padding = Some(Padding {
        length: 5,
        pad_token: "again".to_string(),
    });
    padded.truncation = Some(Truncation {
        max_length: 5,
        stride: 0,
    });
    let tokenizer = TextTokenizer::new(padded.clone()).unwrap();
    assert_eq!(encode(&tokenizer, "world").unwrap().ids, vec![2, 5, 3, 7, 7]);
    assert_eq!(
        encode(&tokenizer, "hello world again hello world").unwrap().ids,
        vec![2, 4, 5, 7, 3]
    );
}

#[test]
fn settings_without_the_added_tokens_are_refused() {
    let mut no_cls = settings();
    no_cls.cls_token = "<s>".to_string();
    assert_eq!(refused(no_cls), Some(EmbedError::ModelLoad));
    let mut no_sep = settings();
    no_sep.sep_token = "</s>".to_string();
    assert_eq!(refused(no_sep), Some(EmbedError::ModelLoad));
    let mut empty = settings();
    empty.vocab = Vec::new();
    assert_eq!(refused(empty), Some(EmbedError::ModelLoad));
}

#[test]
fn unsound_truncation_is_refused() {
    let with = |max_length, stride| {
        let mut cut = settings();
        cut.truncation = Some(Truncation { max_length, stride });
        refused(cut)
    };
    assert_eq!(with(0, 0), Some(EmbedError::ModelLoad));
    assert_eq!(with(1, 0), Some(EmbedError::ModelLoad));
    assert_eq!(with(2, 0), Some(EmbedError::ModelLoad));
    assert_eq!(with(4, 2), Some(EmbedError::ModelLoad));
    assert_eq!(with(4, usize::MAX), Some(EmbedError::ModelLoad));
    assert_eq!(with(3, 0), None);
    assert_eq!(with(4, 1), None);
    assert_eq!(with(usize::MAX, 0), None);
}

#[test]
fn unsound_padding_is_refused() {
    let with = |length: usize, pad_token: &str| {
        let mut padded = settings();
        padded.padding = Some(Padding {
            length,
            pad_token: pad_token.to_string(),
        });
        refused(padded)
    };
    assert_eq!(MAX_PADDED_LENGTH, 65536);
    assert_eq!(with(MAX_PADDED_LENGTH + 1, "[PAD]"), Some(EmbedError::ModelLoad));
    assert_eq!(with(usize::MAX, "[PAD]"), Some(EmbedError::ModelLoad));
    assert_eq!(with(8, "<pad>"), Some(EmbedError::ModelLoad));
    assert_eq!(with(0, "[PAD]"), None);
    assert_eq!(with(MAX_PADDED_LENGTH, "[PAD]"), None);
}

fn word_tokenizer() -> Tokenizer {
    let mut vocab = HashMap::new();
    vocab.insert("[UNK]".to_string(), 0u32);
    vocab.insert("hello".to_string(), 7u32);
    vocab.insert("world".to_string(), 9u32);
    vocab.insert("again".to_string(), 4_000_000_000u32);
    let model = WordLevel::builder()
        .vocab(vocab)
        .unk_token("[UNK]".to_string())
        .build()
        .unwrap();
    let mut tokenizer = Tokenizer::new(model);
    tokenizer.with_pre_tokenizer(Whitespace::default());
    tokenizer
}

fn ids(tokenizer: &Tokenizer, text: &str) -> Vec<u32> {
    tokenizer.encode(text, true).unwrap().get_ids().to_vec()
}

#[test]
fn chunking_tokenizer_neither_pads_nor_truncates() {
    let mut tokenizer = word_tokenizer();
    tokenizer.with_padding(Some(PaddingParams {
        strategy: PaddingStrategy::Fixed(5),
        ..PaddingParams::default()
    }));
    tokenizer
        .with_truncation(Some(TruncationParams {
            max_length: 2,
            ..TruncationParams::default()
        }))
        .unwrap();
    assert!(has_padding(&tokenizer));
    assert!(has_truncation(&tokenizer));
    assert_eq!(ids(&tokenizer, "hello"), vec![7, 0, 0, 0, 0]);
    assert_eq!(ids(&tokenizer, "hello world again").len(), 5);

    let chunking = chunking_tokenizer(tokenizer);
    assert!(!has_padding(&chunking));
    assert!(!has_truncation(&chunking));
    assert!(chunking.get_padding().is_none());
    assert!(chunking.get_truncation().is_none());
    assert_eq!(ids(&chunking, "hello"), vec![7]);
    assert_eq!(ids(&chunking, "hello world again"), vec![7, 9, 4_000_000_000]);
}

#[test]
fn chunking_tokenizer_leaves_a_plain_tokenizer_plain() {
    let tokenizer = word_tokenizer();
    assert!(!has_padding(&tokenizer));
    assert!(!has_truncation(&tokenizer));
    let chunking = chunking_tokenizer(tokenizer);
    assert!(!has_padding(&chunking));
    assert!(!has_truncation(&chunking));
    assert_eq!(ids(&chunking, "world hello"), vec![9, 7]);
}

#[test]
fn padding_and_truncation_are_told_apart() {
    let mut padded = word_tokenizer();
    padded.with_padding(Some(PaddingParams::default()));
    assert!(has_padding(&padded));
    assert!(!has_truncation(&padded));
    let mut truncated = word_tokenizer();
    truncated
        .with_truncation(Some(TruncationParams::default()))
        .unwrap();
    assert!(!has_padding(&truncated));
    assert!(has_truncation(&truncated));
    let chunking = chunking_tokenizer(truncated);
    assert!(!has_padding(&chunking));
    assert!(!has_truncation(&chunking));
}

#[test]
fn tokenizer_keeps_the_settings_it_was_built_of() {
    let mut given = settings();
    given.truncation = Some(Truncation {
        max_length: 128,
        stride: 16,
    });
    given.padding = Some(Padding {
        length: 128,
        pad_token: "[PAD]".to_string(),
    });
    let tokenizer = TextTokenizer::new(given.clone()).unwrap();
    let kept = tokenizer.get_settings();
    assert_eq!(kept.vocab, given.vocab);
    assert_eq!(kept.unk_token, "[UNK]");
    assert_eq!(kept.continuing_subword_prefix, "##");
    assert_eq!(kept.max_input_chars_per_word, 100);
    assert_eq!(kept.cls_token, "[CLS]");
    assert_eq!(kept.sep_token, "[SEP]");
    assert!(kept.lowercase && kept.clean_text && kept.handle_chinese_chars);
    assert_eq!(kept.strip_accents, None);
    assert_eq!(kept.truncation.as_ref().map(|t| (t.max_length, t.stride)), Some((128, 16)));
    assert_eq!(
        kept.padding.as_ref().map(|p| (p.length, p.pad_token.as_str())),
        Some((128, "[PAD]"))
    );
}
