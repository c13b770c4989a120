//! From text to the input of the model: the token encoding of a text and the
//! three integer tensors of shape `(1, length)` that are built from it.

use crate::error::EmbedError;
use ndarray::Array2;
use vstd::prelude::*;

verus! {

/// `ndarray::ShapeError`, the refusal of values that do not fill a shape.
#[verifier::external_type_specification]
#[verifier::external_body]
pub struct ExShapeError(ndarray::ShapeError);

/// `tokenizers::Tokenizer`, a tokenizer as it was loaded.
#[verifier::external_type_specification]
#[verifier::external_body]
pub struct ExTokenizer(tokenizers::Tokenizer);

/// What a tokenizer gives for one text: the token ids and, for each token,
/// its attention mask entry and its type id.
pub struct TokenEncoding {
    pub ids: Vec<u32>,
    pub attention_mask: Vec<u32>,
    pub type_ids: Vec<u32>,
}

/// The three sequences of an encoding: token ids, attention mask, type ids.
pub type EncodingParts = (Seq<u32>, Seq<u32>, Seq<u32>);

impl View for TokenEncoding {
    type V = EncodingParts;

    open spec fn view(&self) -> EncodingParts {
        (self.ids@, self.attention_mask@, self.type_ids@)
    }
}

/// A two-dimensional tensor of 64-bit integers, held as an
/// `ndarray::Array2`. The array's type is bounded by a trait of `ndarray`
/// that cannot be declared to the verifier, so the tensor is opaque to it:
/// `tensor_values` and `tensor_shape` say what it holds.
#[verifier::external_body]
pub struct TokenTensor {
    array: Array2<i64>,
}

/// The values of a tensor, row by row.
pub uninterp spec fn tensor_values(tensor: TokenTensor) -> Seq<i64>;

/// The numbers of rows and of columns of a tensor.
pub uninterp spec fn tensor_shape(tensor: TokenTensor) -> (nat, nat);

/// Whether `len` values fill a tensor of `rows` by `cols`: the numbers of
/// values agree, and the product of the axis lengths that are not zero does
/// not exceed `isize::MAX`.
pub open spec fn shape_fits(rows: nat, cols: nat, len: nat) -> bool {
    &&& rows * cols == len
    &&& (if rows == 0 {
        1
    } else {
        rows
    }) * (if cols == 0 {
        1
    } else {
        cols
    }) <= isize::MAX
}

/// `ndarray::Array2::from_shape_vec` with the shape `(rows, cols)`: it makes
/// the array exactly when the values fill that shape, and the array then has
/// that shape and holds the values in their order, row by row.
#[verifier::external_body]
fn tensor_from_rows(rows: usize, cols: usize, values: Vec<i64>) -> (made: Result<
    TokenTensor,
    ndarray::ShapeError,
>)
    ensures
        made is Ok <==> shape_fits(rows as nat, cols as nat, values@.len()),
        made matches Ok(tensor) ==> tensor_values(tensor) == values@ && tensor_shape(tensor) == (
            rows as nat,
            cols as nat,
        ),
{
    Array2::from_shape_vec((rows, cols), values).map(|array| TokenTensor { array })
}

/// `dim` of an `ndarray` array: its shape.
#[verifier::external_body]
fn tensor_dim(tensor: &TokenTensor) -> (dim: (usize, usize))
    ensures
        (dim.0 as nat, dim.1 as nat) == tensor_shape(*tensor),
{
    tensor.array.dim()
}

/// `iter` of an `ndarray` array: its values in logical order, the last
/// index running fastest, which is row by row.
#[verifier::external_body]
fn tensor_to_vec(tensor: &TokenTensor) -> (values: Vec<i64>)
    ensures
        values@ == tensor_values(*tensor),
{
    tensor.array.iter().copied().collect()
}

impl TokenTensor {
    /// The numbers of rows and of columns.
    pub fn dim(&self) -> (dim: (usize, usize))
        ensures
            (dim.0 as nat, dim.1 as nat) == tensor_shape(*self),
    {
        tensor_dim(self)
    }

    /// The values, row by row.
    pub fn to_vec(&self) -> (values: Vec<i64>)
        ensures
            values@ == tensor_values(*self),
    {
        tensor_to_vec(self)
    }
}

/// Each value of the sequence as a 64-bit integer.
pub open spec fn widened(values: Seq<u32>) -> Seq<i64> {
    values.map_values(|v: u32| v as i64)
}

/// Widens each value to 64 bits, as the model's input tensors hold them.
pub fn widen(values: &Vec<u32>) -> (wide: Vec<i64>)
    ensures
        wide@ == widened(values@),
{
    let mut wide: Vec<i64> = Vec::new();
    let mut k: usize = 0;
    while k < values.len()
        invariant
            k <= values.len(),
            wide@ == widened(values@.take(k as int)),
        decreases values.len() - k,
    {
        wide.push(values[k] as i64);
        proof {
            assert(wide@ =~= widened(values@.take(k as int + 1)));
        }
        k = k + 1;
    }
    proof {
        assert(values@.take(k as int) =~= values@);
    }
    wide
}

/// The input of one inference call: token ids, attention mask and token
/// type ids, each as a tensor of one row.
pub struct ModelInput {
    pub input_ids: TokenTensor,
    pub attention_mask: TokenTensor,
    pub token_type_ids: TokenTensor,
}

/// Whether the three sequences of an encoding can each fill one row of the
/// same length.
pub open spec fn shapeable(parts: EncodingParts) -> bool {
    &&& parts.0.len() <= isize::MAX
    &&& parts.1.len() == parts.0.len()
    &&& parts.2.len() == parts.0.len()
}

/// Whether a tensor is the single row of the given values, widened.
pub open spec fn is_row_of(tensor: TokenTensor, values: Seq<u32>) -> bool {
    &&& tensor_shape(tensor) == (1nat, values.len())
    &&& tensor_values(tensor) == widened(values)
}

/// Whether the input holds exactly what the encoding holds.
pub open spec fn is_input_of(input: ModelInput, parts: EncodingParts) -> bool {
    &&& is_row_of(input.input_ids, parts.0)
    &&& is_row_of(input.attention_mask, parts.1)
    &&& is_row_of(input.token_type_ids, parts.2)
}

/// Why no input can be built from the three sequences, or `None` where one
/// can: without tokens there is nothing to embed, and sequences of unequal
/// lengths fill no common shape.
pub open spec fn input_refusal(parts: EncodingParts) -> Option<EmbedError> {
    if parts.0.len() == 0 {
        Some(EmbedError::Tokenization)
    } else if !shapeable(parts) {
        Some(EmbedError::TensorShape)
    } else {
        None
    }
}

/// Whether the three tensors of an input have one row each, of one length
/// that is not zero.
pub open spec fn well_shaped(input: ModelInput) -> bool {
    &&& tensor_shape(input.input_ids).0 == 1
    &&& tensor_shape(input.input_ids).1 > 0
    &&& tensor_shape(input.attention_mask) == tensor_shape(input.input_ids)
    &&& tensor_shape(input.token_type_ids) == tensor_shape(input.input_ids)
}

/// The input of a model is determined by the encoding: two inputs built from
/// one encoding hold the same values in the same shapes.
pub proof fn lemma_input_determined(first: ModelInput, second: ModelInput, parts: EncodingParts)
    requires
        is_input_of(first, parts),
        is_input_of(second, parts),
    ensures
        tensor_values(first.input_ids) == tensor_values(second.input_ids),
        tensor_values(first.attention_mask) == tensor_values(second.attention_mask),
        tensor_values(first.token_type_ids) == tensor_values(second.token_type_ids),
        tensor_shape(first.input_ids) == tensor_shape(second.input_ids),
        tensor_shape(first.attention_mask) == tensor_shape(second.attention_mask),
        tensor_shape(first.token_type_ids) == tensor_shape(second.token_type_ids),
{
}

/// One row of the widened values, or the shape error.
fn row_tensor(values: &Vec<u32>, length: usize) -> (made: Result<TokenTensor, EmbedError>)
    ensures
        match made {
            Ok(tensor) => shape_fits(1, length as nat, values@.len()) && is_row_of(tensor, values@),
            Err(error) => !shape_fits(1, length as nat, values@.len()) && error
                == EmbedError::TensorShape,
        },
{
    match tensor_from_rows(1, length, widen(values)) {
        Ok(tensor) => Ok(tensor),
        Err(_) => Err(EmbedError::TensorShape),
    }
}

/// Builds the model's input from an encoding.
///
/// An encoding without tokens is refused as a tokenization failure: there is
/// nothing to pool an embedding from. Otherwise the three sequences must
/// have the length of the token ids, or the shape is refused.
pub fn model_input(encoding: &TokenEncoding) -> (made: Result<ModelInput, EmbedError>)
    ensures
        match made {
            Ok(input) => {
                &&& input_refusal(encoding@) is None
                &&& is_input_of(input, encoding@)
                &&& well_shaped(input)
            },
            Err(error) => input_refusal(encoding@) == Some(error),
        },
{
    let length = encoding.ids.len();
    if length == 0 {
        return Err(EmbedError::Tokenization);
    }
    let input_ids = match row_tensor(&encoding.ids, length) {
        Ok(tensor) => tensor,
        Err(error) => {
            return Err(error);
        },
    };
    let attention_mask = match row_tensor(&encoding.attention_mask, length) {
        Ok(tensor) => tensor,
        Err(error) => {
            return Err(error);
        },
    };
    let token_type_ids = match row_tensor(&encoding.type_ids, length) {
        Ok(tensor) => tensor,
        Err(error) => {
            return Err(error);
        },
    };
    Ok(ModelInput { input_ids, attention_mask, token_type_ids })
}

/// What a tokenizer's outcome means for the caller: its encoding is handed
/// on as it is, and its failure is the tokenization error.
pub fn tokenized(outcome: Option<TokenEncoding>) -> (encoded: Result<TokenEncoding, EmbedError>)
    ensures
        encoded == match outcome {
            Some(encoding) => Ok::<TokenEncoding, EmbedError>(encoding),
            None => Err::<TokenEncoding, EmbedError>(EmbedError::Tokenization),
        },
{
    match outcome {
        Some(encoding) => Ok(encoding),
        None => Err(EmbedError::Tokenization),
    }
}

/// The number of tokens that the word-piece tokenizer puts around a single
/// text: the opening and the closing token.
pub const ADDED_TOKENS: usize = 2;

/// The greatest length that a text may be padded to.
pub const MAX_PADDED_LENGTH: usize = 65536;

/// How a long text is cut: to `max_length` tokens, the two added ones
/// counted in; where more than one part is kept, the parts overlap by
/// `stride` tokens.
#[derive(Clone, Debug)]
pub struct Truncation {
    pub max_length: usize,
    pub stride: usize,
}

/// How a short text is filled up: to `length` tokens, with `pad_token`.
#[derive(Clone, Debug)]
pub struct Padding {
    pub length: usize,
    pub pad_token: String,
}

/// What a word-piece tokenizer is made of. The token at place `i` of the
/// vocabulary has the id `i`; where a token stands twice, its last place
/// counts.
#[derive(Clone, Debug)]
pub struct TokenizerSettings {
    pub vocab: Vec<String>,
    pub unk_token: String,
    pub continuing_subword_prefix: String,
    pub max_input_chars_per_word: usize,
    pub clean_text: bool,
    pub handle_chinese_chars: bool,
    pub strip_accents: Option<bool>,
    pub lowercase: bool,
    pub cls_token: String,
    pub sep_token: String,
    pub truncation: Option<Truncation>,
    pub padding: Option<Padding>,
}

/// Whether the vocabulary holds the token.
pub open spec fn holds_token(vocab: Seq<String>, token: Seq<char>) -> bool {
    exists|i: int| 0 <= i < vocab.len() && (#[trigger] vocab[i])@ == token
}

/// Whether `place` is the last place of the token in the vocabulary.
pub open spec fn is_last_place(vocab: Seq<String>, token: Seq<char>, place: int) -> bool {
    &&& 0 <= place < vocab.len()
    &&& vocab[place]@ == token
    &&& forall|j: int| place < j < vocab.len() ==> (#[trigger] vocab[j])@ != token
}

/// Whether a truncation leaves room for a text and its stride beside the
/// added tokens.
pub open spec fn truncation_is_sound(truncation: Truncation) -> bool {
    ADDED_TOKENS <= truncation.max_length && truncation.stride < truncation.max_length
        - ADDED_TOKENS
}

/// Whether a tokenizer can be made of the settings: the ids fit, the
/// opening, the closing and the padding token are in the vocabulary, the
/// truncation is sound and the padded length is within its limit.
pub open spec fn settings_valid(settings: TokenizerSettings) -> bool {
    &&& settings.vocab@.len() <= u32::MAX
    &&& holds_token(settings.vocab@, settings.cls_token@)
    &&& holds_token(settings.vocab@, settings.sep_token@)
    &&& settings.truncation matches Some(truncation) ==> truncation_is_sound(truncation)
    &&& settings.padding matches Some(padding) ==> padding.length <= MAX_PADDED_LENGTH
        && holds_token(settings.vocab@, padding.pad_token@)
}

/// A word-piece tokenizer for single texts. It is built by `new` from plain
/// settings and not changed afterwards, so every part of it is one that the
/// settings name: a word-piece model, the normalizer and the pre-tokenizer
/// of BERT, the post-processor that puts the opening and the closing token
/// around the text, a sound truncation and a bounded padding.
pub struct TextTokenizer {
    inner: tokenizers::Tokenizer,
    settings: TokenizerSettings,
}

/// What `tokenizers::Tokenizer::encode` gives for a text: the token ids,
/// the attention mask and the type ids, or `None` where it fails.
pub uninterp spec fn encoding_of(
    tokenizer: tokenizers::Tokenizer,
    text: Seq<char>,
    add_special_tokens: bool,
) -> Option<EncodingParts>;

/// The number of tokens that the tokenizer's post-processor adds to one
/// text, or to a pair of texts.
pub uninterp spec fn added_token_count(tokenizer: tokenizers::Tokenizer, is_pair: bool) -> usize;

/// `tokenizers::models::wordpiece::WordPieceBuilder::build` on the given
/// vocabulary, and `tokenizers::Tokenizer::new` on the model. Without a
/// vocabulary file to read, the builder does not fail.
#[verifier::external_body]
fn wordpiece_tokenizer(
    entries: Vec<(String, u32)>,
    unk_token: &str,
    continuing_subword_prefix: &str,
    max_input_chars_per_word: usize,
) -> (made: Option<tokenizers::Tokenizer>)
    ensures
        made is Some,
{
    tokenizers::models::wordpiece::WordPiece::builder()
        .vocab(entries.into_iter().collect())
        .unk_token(unk_token.to_string())
        .continuing_subword_prefix(continuing_subword_prefix.to_string())
        .max_input_chars_per_word(max_input_chars_per_word)
        .build()
        .ok()
        .map(tokenizers::Tokenizer::new)
}

/// `tokenizers::Tokenizer::with_normalizer` with a
/// `tokenizers::normalizers::BertNormalizer` of the given switches.
#[verifier::external_body]
fn set_bert_normalizer(
    tokenizer: &mut tokenizers::Tokenizer,
    clean_text: bool,
    handle_chinese_chars: bool,
    strip_accents: Option<bool>,
    lowercase: bool,
) {
    tokenizer.with_normalizer(
        tokenizers::normalizers::BertNormalizer::new(
            clean_text,
            handle_chinese_chars,
            strip_accents,
            lowercase,
        ),
    );
}

/// `tokenizers::Tokenizer::with_pre_tokenizer` with the
/// `tokenizers::pre_tokenizers::bert::BertPreTokenizer`.
#[verifier::external_body]
fn set_bert_pre_tokenizer(tokenizer: &mut tokenizers::Tokenizer) {
    tokenizer.with_pre_tokenizer(tokenizers::pre_tokenizers::bert::BertPreTokenizer);
}

/// `tokenizers::Tokenizer::with_post_processor` with a
/// `tokenizers::processors::bert::BertProcessing` of the given closing and
/// opening token. This post-processor adds two tokens to a single text.
#[verifier::external_body]
fn set_bert_processing(
    tokenizer: &mut tokenizers::Tokenizer,
    sep_token: &str,
    sep_id: u32,
    cls_token: &str,
    cls_id: u32,
)
    ensures
        added_token_count(*final(tokenizer), false) == 2,
{
    tokenizer.with_post_processor(
        tokenizers::processors::bert::BertProcessing::new(
            (sep_token.to_string(), sep_id),
            (cls_token.to_string(), cls_id),
        ),
    );
}

/// `tokenizers::Tokenizer::with_truncation` with the given greatest length
/// and stride, cutting at the right. It takes the tokens that the
/// post-processor adds to a single text off the greatest length, which must
/// hold them, and sets the truncation exactly where the stride is smaller
/// than what is left.
#[verifier::external_body]
fn set_truncation(tokenizer: &mut tokenizers::Tokenizer, max_length: usize, stride: usize) -> (set:
    bool)
    requires
        added_token_count(*old(tokenizer), false) <= max_length,
    ensures
        set == (stride < max_length - added_token_count(*old(tokenizer), false)),
{
    tokenizer.with_truncation(
        Some(tokenizers::TruncationParams { max_length, stride, ..Default::default() }),
    ).is_ok()
}

/// `tokenizers::Tokenizer::with_padding` to the given fixed length with the
/// given token, filling at the right.
#[verifier::external_body]
fn set_padding(
    tokenizer: &mut tokenizers::Tokenizer,
    length: usize,
    pad_id: u32,
    pad_token: &str,
) {
    tokenizer.with_padding(
        Some(
            tokenizers::PaddingParams {
                strategy: tokenizers::PaddingStrategy::Fixed(length),
                pad_id,
                pad_token: pad_token.to_string(),
                ..Default::default()
            },
        ),
    );
}

/// `tokenizers::Tokenizer::encode` on one text; `None` is its failure. The
/// tokenizer is one that `TextTokenizer::new` has built. What it gives is
/// settled by the tokenizer, the text and the flag: a word-piece model looks
/// the pieces of a word up in its vocabulary and draws nothing at random.
#[verifier::external_body]
fn tokenizer_encode(tokenizer: &TextTokenizer, text: &str, add_special_tokens: bool) -> (encoded:
    Option<TokenEncoding>)
    ensures
        match encoded {
            Some(encoding) => encoding_of(tokenizer.inner, text@, add_special_tokens) == Some(
                encoding@,
            ),
            None => encoding_of(tokenizer.inner, text@, add_special_tokens) is None,
        },
{
    match tokenizer.inner.encode(text, add_special_tokens) {
        Ok(encoding) => Some(
            TokenEncoding {
                ids: encoding.get_ids().to_vec(),
                attention_mask: encoding.get_attention_mask().to_vec(),
                type_ids: encoding.get_type_ids().to_vec(),
            },
        ),
        Err(_) => None,
    }
}

/// The id of a token: its last place in the vocabulary.
pub fn token_id(vocab: &Vec<String>, token: &String) -> (id: Option<u32>)
    requires
        vocab@.len() <= u32::MAX,
    ensures
        match id {
            Some(place) => is_last_place(vocab@, token@, place as int),
            None => !holds_token(vocab@, token@),
        },
{
    let mut k: usize = vocab.len();
    while k > 0
        invariant
            k <= vocab.len() <= u32::MAX,
            forall|j: int| k <= j < vocab.len() ==> (#[trigger] vocab@[j])@ != token@,
        decreases k,
    {
        k = k - 1;
        if vocab[k] == *token {
            return Some(k as u32);
        }
    }
    None
}

/// Tests a truncation.
pub fn sound_truncation(truncation: &Truncation) -> (sound: bool)
    ensures
        sound == truncation_is_sound(*truncation),
{
    truncation.max_length >= ADDED_TOKENS && truncation.stride < truncation.max_length
        - ADDED_TOKENS
}

impl TextTokenizer {
    /// What the tokenizer gives for a text, with its opening and closing
    /// token added: the token ids, the attention mask and the type ids, or
    /// `None` where it fails on the text.
    pub closed spec fn encoding(&self, text: Seq<char>) -> Option<EncodingParts> {
        encoding_of(self.inner, text, true)
    }

    /// The settings that the tokenizer was built of.
    pub closed spec fn settings(&self) -> TokenizerSettings {
        self.settings
    }

    /// The settings that the tokenizer was built of.
    pub fn get_settings(&self) -> (settings: &TokenizerSettings)
        ensures
            *settings == self.settings(),
    {
        &self.settings
    }

    /// Builds the tokenizer of the settings, which it keeps. It is built
    /// exactly where the settings are valid; settings that are not are a
    /// fault of what was loaded.
    pub fn new(settings: TokenizerSettings) -> (made: Result<TextTokenizer, EmbedError>)
        ensures
            match made {
                Ok(tokenizer) => settings_valid(settings) && tokenizer.settings() == settings,
                Err(error) => error == EmbedError::ModelLoad && !settings_valid(settings),
            },
    {
        if settings.vocab.len() > u32::MAX as usize {
            return Err(EmbedError::ModelLoad);
        }
        let cls_id = match token_id(&settings.vocab, &settings.cls_token) {
            Some(id) => id,
            None => {
                return Err(EmbedError::ModelLoad);
            },
        };
        let sep_id = match token_id(&settings.vocab, &settings.sep_token) {
            Some(id) => id,
            None => {
                return Err(EmbedError::ModelLoad);
            },
        };
        if let Some(truncation) = &settings.truncation {
            if !sound_truncation(truncation) {
                return Err(EmbedError::ModelLoad);
            }
        }
        let mut pad_id: u32 = 0;
        if let Some(padding) = &settings.padding {
            if padding.length > MAX_PADDED_LENGTH {
                return Err(EmbedError::ModelLoad);
            }
            pad_id = match token_id(&settings.vocab, &padding.pad_token) {
                Some(id) => id,
                None => {
                    return Err(EmbedError::ModelLoad);
                },
            };
        }
        let mut entries: Vec<(String, u32)> = Vec::new();
        let mut k: usize = 0;
        while k < settings.vocab.len()
            invariant
                k <= settings.vocab.len() <= u32::MAX,
            decreases settings.vocab.len() - k,
        {
            entries.push((settings.vocab[k].clone(), k as u32));
            k = k + 1;
        }
        let made = wordpiece_tokenizer(
            entries,
            settings.unk_token.as_str(),
            settings.continuing_subword_prefix.as_str(),
            settings.max_input_chars_per_word,
        );
        let mut inner = match made {
            Some(inner) => inner,
            None => {
                return Err(EmbedError::ModelLoad);
            },
        };
        set_bert_normalizer(
            &mut inner,
            settings.clean_text,
            settings.handle_chinese_chars,
            settings.strip_accents,
            settings.lowercase,
        );
        set_bert_pre_tokenizer(&mut inner);
        set_bert_processing(
            &mut inner,
            settings.sep_token.as_str(),
            sep_id,
            settings.cls_token.as_str(),
            cls_id,
        );
        if let Some(truncation) = &settings.truncation {
            let set = set_truncation(&mut inner, truncation.max_length, truncation.stride);
            if !set {
                return Err(EmbedError::ModelLoad);
            }
        }
        if let Some(padding) = &settings.padding {
            set_padding(&mut inner, padding.length, pad_id, padding.pad_token.as_str());
        }
        Ok(TextTokenizer { inner, settings })
    }
}

/// What `encode` refuses a text with, or `None` where it encodes it.
pub open spec fn encode_refusal(tokenizer: TextTokenizer, text: Seq<char>) -> Option<EmbedError> {
    if tokenizer.encoding(text) is None {
        Some(EmbedError::Tokenization)
    } else {
        None
    }
}

/// What `prepare_input` refuses a text with, or `None` where it builds the
/// input: the refusal of `encode`, or else that of the encoding.
pub open spec fn prepare_refusal(tokenizer: TextTokenizer, text: Seq<char>) -> Option<EmbedError> {
    match tokenizer.encoding(text) {
        None => Some(EmbedError::Tokenization),
        Some(parts) => input_refusal(parts),
    }
}

/// The same text gives the same encoding, whenever and however often it is
/// encoded with one tokenizer.
pub proof fn lemma_encoding_determined(
    tokenizer: TextTokenizer,
    text: Seq<char>,
    first: EncodingParts,
    second: EncodingParts,
)
    requires
        tokenizer.encoding(text) == Some(first),
        tokenizer.encoding(text) == Some(second),
    ensures
        first == second,
{
}

/// Encodes one text with the opening and the closing token added: the
/// result holds what the tokenizer gives for the text. The tokenizer's
/// failure on the text is the tokenization error.
pub fn encode(tokenizer: &TextTokenizer, text: &str) -> (encoded: Result<
    TokenEncoding,
    EmbedError,
>)
    ensures
        match encoded {
            Ok(encoding) => tokenizer.encoding(text@) == Some(encoding@),
            Err(error) => error == EmbedError::Tokenization && tokenizer.encoding(text@) is None,
        },
{
    let outcome = tokenizer_encode(tokenizer, text, true);
    tokenized(outcome)
}

/// Encodes one text and builds the model's input from the encoding: three
/// rows that hold what the tokenizer gives for the text, widened.
///
/// It fails where the tokenizer fails on the text or gives no token, as a
/// tokenization failure, and where the three sequences have unequal
/// lengths, as a shape failure.
pub fn prepare_input(tokenizer: &TextTokenizer, text: &str) -> (made: Result<
    ModelInput,
    EmbedError,
>)
    ensures
        match made {
            Ok(input) => {
                &&& prepare_refusal(*tokenizer, text@) is None
                &&& tokenizer.encoding(text@) matches Some(parts)
                &&& is_input_of(input, parts)
                &&& well_shaped(input)
            },
            Err(error) => prepare_refusal(*tokenizer, text@) == Some(error),
        },
{
    match encode(tokenizer, text) {
        Ok(encoding) => model_input(&encoding),
        Err(error) => Err(error),
    }
}

/// Whether the tokenizer pads what it encodes: whether what
/// `tokenizers::Tokenizer::get_padding` gives are padding parameters.
pub uninterp spec fn padding_is_set(tokenizer: tokenizers::Tokenizer) -> bool;

/// The truncation of the tokenizer: the greatest length and the stride of
/// what `tokenizers::Tokenizer::get_truncation` gives, or `None` where the
/// tokenizer does not truncate.
pub uninterp spec fn truncation_limits(tokenizer: tokenizers::Tokenizer) -> Option<(usize, usize)>;

/// Whether the tokenizer truncates what it encodes.
pub open spec fn truncation_is_set(tokenizer: tokenizers::Tokenizer) -> bool {
    truncation_limits(tokenizer) is Some
}

/// Whether the tokenizer takes a text as it is, with nothing added to fill
/// a length and nothing cut off: it neither pads nor truncates.
pub open spec fn takes_text_whole(tokenizer: tokenizers::Tokenizer) -> bool {
    !padding_is_set(tokenizer) && !truncation_is_set(tokenizer)
}

/// `tokenizers::Tokenizer::get_padding`, of which it is kept whether it
/// gives padding parameters.
#[verifier::external_body]
fn tokenizer_has_padding(tokenizer: &tokenizers::Tokenizer) -> (set: bool)
    ensures
        set == padding_is_set(*tokenizer),
{
    tokenizer.get_padding().is_some()
}

/// `tokenizers::Tokenizer::get_truncation`, of which the greatest length and
/// the stride are kept.
#[verifier::external_body]
fn tokenizer_truncation(tokenizer: &tokenizers::Tokenizer) -> (limits: Option<(usize, usize)>)
    ensures
        limits == truncation_limits(*tokenizer),
{
    tokenizer.get_truncation().map(|params| (params.max_length, params.stride))
}

/// `tokenizers::Tokenizer::with_padding` with no padding parameters: it
/// stores `None` as the padding, so that `get_padding` gives `None` from
/// then on.
#[verifier::external_body]
fn tokenizer_without_padding(tokenizer: &mut tokenizers::Tokenizer)
    ensures
        !padding_is_set(*final(tokenizer)),
{
    tokenizer.with_padding(None);
}

/// `tokenizers::Tokenizer::with_truncation` with no truncation parameters:
/// without parameters it cannot fail, and it stores `None` as the
/// truncation, so that `get_truncation` gives `None` from then on. It
/// writes nothing else, so the padding is what it was.
#[verifier::external_body]
fn tokenizer_without_truncation(tokenizer: &mut tokenizers::Tokenizer)
    ensures
        truncation_limits(*final(tokenizer)) is None,
        padding_is_set(*final(tokenizer)) == padding_is_set(*old(tokenizer)),
{
    let _ = tokenizer.with_truncation(None);
}

/// Whether the tokenizer pads what it encodes.
pub fn has_padding(tokenizer: &tokenizers::Tokenizer) -> (set: bool)
    ensures
        set == padding_is_set(*tokenizer),
{
    tokenizer_has_padding(tokenizer)
}

/// Whether the tokenizer truncates what it encodes.
pub fn has_truncation(tokenizer: &tokenizers::Tokenizer) -> (set: bool)
    ensures
        set == truncation_is_set(*tokenizer),
{
    tokenizer_truncation(tokenizer).is_some()
}

/// The tokenizer for cutting documents into chunks: the given tokenizer
/// with its padding and its truncation switched off, so that it counts the
/// tokens of a text as they are. Whatever was set before, the result
/// neither pads nor truncates.
pub fn chunking_tokenizer(tokenizer: tokenizers::Tokenizer) -> (chunking: tokenizers::Tokenizer)
    ensures
        takes_text_whole(chunking),
{
    let mut chunking = tokenizer;
    tokenizer_without_padding(&mut chunking);
    tokenizer_without_truncation(&mut chunking);
    chunking
}

} // verus!
