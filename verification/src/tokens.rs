//! Token ids for the accelerated backend, from the model's own vocabulary.
//! A text is tokenized as it is: nothing is padded and nothing is cut.

use crate::error::EmbedError;
use vstd::prelude::*;

verus! {

/// `llm::Vocabulary`, the vocabulary that a model was loaded with.
#[verifier::external_type_specification]
#[verifier::external_body]
pub struct ExVocabulary(llm::Vocabulary);

/// The token that opens every sequence.
pub const BOS_TOKEN: i32 = 1;

/// The tokens that a vocabulary holds, each as its bytes, at the place of
/// its id.
pub uninterp spec fn vocabulary_entries(vocabulary: llm::Vocabulary) -> Seq<Seq<u8>>;

/// What `llm::Vocabulary::tokenize` gives for a text, of which the token
/// ids are kept: the ids in the order of the text, or `None` where it fails.
pub uninterp spec fn vocabulary_tokens(
    vocabulary: llm::Vocabulary,
    text: Seq<char>,
    bos: bool,
) -> Option<Seq<i32>>;

/// The vocabulary of a model. It is built token by token and not changed
/// otherwise, so that its tables agree with each other: every id that it
/// knows for a piece of text is the place of a token that has the bytes of
/// that piece.
pub struct ModelVocabulary {
    inner: llm::Vocabulary,
}

impl View for ModelVocabulary {
    type V = Seq<Seq<u8>>;

    /// The tokens, at the places of their ids.
    closed spec fn view(&self) -> Seq<Seq<u8>> {
        vocabulary_entries(self.inner)
    }
}

/// The bytes of each token of a list.
pub open spec fn token_bytes(tokens: Seq<Vec<u8>>) -> Seq<Seq<u8>> {
    tokens.map_values(|token: Vec<u8>| token@)
}

/// `llm::Vocabulary::default`: a vocabulary without tokens.
#[verifier::external_body]
fn vocabulary_new() -> (vocabulary: ModelVocabulary)
    ensures
        vocabulary_entries(vocabulary.inner) == Seq::<Seq<u8>>::empty(),
{
    ModelVocabulary { inner: llm::Vocabulary::default() }
}

/// `llm::Vocabulary::push_token`: the token is added behind those that are
/// there. Its id must be the number of tokens that are there. Its score is
/// the default one; tokenizing does not read scores.
#[verifier::external_body]
fn vocabulary_push(vocabulary: &mut ModelVocabulary, id: i32, content: Vec<u8>)
    requires
        id == vocabulary_entries(old(vocabulary).inner).len(),
    ensures
        vocabulary_entries(final(vocabulary).inner) == vocabulary_entries(
            old(vocabulary).inner,
        ).push(content@),
{
    vocabulary.inner.push_token(id, content, Default::default());
}

/// `llm::Vocabulary::tokenize`, of which the token ids are kept. Two things
/// hold whatever the vocabulary holds: with `bos` the opening token 1 comes
/// first, and a text of no bytes does not fail and gives no other token.
#[verifier::external_body]
fn vocabulary_tokenize(vocabulary: &ModelVocabulary, text: &str, bos: bool) -> (tokens: Option<
    Vec<i32>,
>)
    ensures
        match tokens {
            Some(ids) => vocabulary_tokens(vocabulary.inner, text@, bos) == Some(ids@),
            None => vocabulary_tokens(vocabulary.inner, text@, bos) is None,
        },
        tokens matches Some(ids) ==> (bos ==> ids@.len() > 0 && ids@[0] == 1),
        tokens matches Some(ids) ==> (text@.len() == 0 && bos ==> ids@.len() == 1),
        tokens matches Some(ids) ==> (text@.len() == 0 && !bos ==> ids@.len() == 0),
        tokens is Some || text@.len() > 0,
{
    match vocabulary.inner.tokenize(text, bos) {
        Ok(tokens) => Some(tokens.iter().map(|token| token.1).collect()),
        Err(_) => None,
    }
}

/// A copy of the bytes.
fn copy_bytes(bytes: &Vec<u8>) -> (copy: Vec<u8>)
    ensures
        copy@ == bytes@,
{
    let mut copy: Vec<u8> = Vec::new();
    let mut k: usize = 0;
    while k < bytes.len()
        invariant
            k <= bytes.len(),
            copy@ == bytes@.take(k as int),
        decreases bytes.len() - k,
    {
        copy.push(bytes[k]);
        proof {
            assert(copy@ =~= bytes@.take(k as int + 1));
        }
        k = k + 1;
    }
    proof {
        assert(bytes@.take(k as int) =~= bytes@);
    }
    copy
}

impl ModelVocabulary {
    /// The token ids of a text in this vocabulary, opened by `BOS_TOKEN`,
    /// or `None` where the vocabulary cannot cover the text.
    pub closed spec fn tokens_of(&self, text: Seq<char>) -> Option<Seq<i32>> {
        vocabulary_tokens(self.inner, text, true)
    }

    /// The vocabulary of the given tokens: the token at place `i` has the
    /// id `i`. More tokens than ids exist cannot be loaded.
    pub fn from_tokens(tokens: &Vec<Vec<u8>>) -> (made: Result<ModelVocabulary, EmbedError>)
        ensures
            match made {
                Ok(vocabulary) => tokens@.len() <= i32::MAX && vocabulary@ == token_bytes(tokens@),
                Err(error) => tokens@.len() > i32::MAX && error == EmbedError::ModelLoad,
            },
    {
        if tokens.len() > i32::MAX as usize {
            return Err(EmbedError::ModelLoad);
        }
        let mut vocabulary = vocabulary_new();
        let mut k: usize = 0;
        while k < tokens.len()
            invariant
                k <= tokens.len() <= i32::MAX,
                vocabulary@ == token_bytes(tokens@.take(k as int)),
            decreases tokens.len() - k,
        {
            let content = copy_bytes(&tokens[k]);
            vocabulary_push(&mut vocabulary, k as i32, content);
            proof {
                assert(vocabulary@ =~= token_bytes(tokens@.take(k as int + 1)));
            }
            k = k + 1;
        }
        proof {
            assert(tokens@.take(k as int) =~= tokens@);
        }
        Ok(vocabulary)
    }
}

/// One text gives one sequence of token ids, whenever and however often it
/// is tokenized with one vocabulary.
pub proof fn lemma_tokens_determined(
    vocabulary: ModelVocabulary,
    text: Seq<char>,
    first: Seq<i32>,
    second: Seq<i32>,
)
    requires
        vocabulary.tokens_of(text) == Some(first),
        vocabulary.tokens_of(text) == Some(second),
    ensures
        first == second,
{
}

/// The token ids of one text, opened by `BOS_TOKEN`: the ids that the
/// vocabulary gives for the text, in the order of the text.
///
/// The empty text always succeeds and gives the opening token alone, so its
/// embedding is that of the opening token. A text that the vocabulary cannot
/// cover is a tokenization failure.
pub fn token_ids(vocabulary: &ModelVocabulary, text: &str) -> (tokens: Result<Vec<i32>, EmbedError>)
    ensures
        match tokens {
            Ok(ids) => {
                &&& vocabulary.tokens_of(text@) == Some(ids@)
                &&& ids@.len() > 0
                &&& ids@[0] == BOS_TOKEN
                &&& text@.len() == 0 ==> ids@ == seq![BOS_TOKEN]
            },
            Err(error) => {
                &&& vocabulary.tokens_of(text@) is None
                &&& error == EmbedError::Tokenization
                &&& text@.len() > 0
            },
        },
{
    match vocabulary_tokenize(vocabulary, text, true) {
        Some(ids) => {
            proof {
                if text@.len() == 0 {
                    assert(ids@ =~= seq![BOS_TOKEN]);
                }
            }
            Ok(ids)
        },
        None => Err(EmbedError::Tokenization),
    }
}

/// The token ids of each text of a batch, each tokenized on its own, in the
/// order of the texts: row `i` holds the ids of text `i`, at their own
/// length. The batch fails exactly when one of its texts fails alone.
pub fn batch_token_ids(vocabulary: &ModelVocabulary, texts: &Vec<&str>) -> (batch: Result<
    Vec<Vec<i32>>,
    EmbedError,
>)
    ensures
        match batch {
            Ok(rows) => {
                &&& rows@.len() == texts@.len()
                &&& forall|i: int|
                    0 <= i < rows@.len() ==> {
                        &&& vocabulary.tokens_of(texts@[i]@) == Some((#[trigger] rows@[i])@)
                        &&& rows@[i]@.len() > 0
                        &&& rows@[i]@[0] == BOS_TOKEN
                        &&& texts@[i]@.len() == 0 ==> rows@[i]@ == seq![BOS_TOKEN]
                    }
            },
            Err(error) => {
                &&& error == EmbedError::Tokenization
                &&& exists|i: int|
                    {
                        &&& 0 <= i < texts@.len()
                        &&& vocabulary.tokens_of((#[trigger] texts@[i])@) is None
                        &&& texts@[i]@.len() > 0
                        &&& forall|j: int|
                            0 <= j < i ==> vocabulary.tokens_of((#[trigger] texts@[j])@) is Some
                    }
            },
        },
{
    let mut rows: Vec<Vec<i32>> = Vec::new();
    let mut k: usize = 0;
    while k < texts.len()
        invariant
            k <= texts.len(),
            rows@.len() == k,
            forall|i: int|
                0 <= i < rows@.len() ==> {
                    &&& vocabulary.tokens_of(texts@[i]@) == Some((#[trigger] rows@[i])@)
                    &&& rows@[i]@.len() > 0
                    &&& rows@[i]@[0] == BOS_TOKEN
                    &&& texts@[i]@.len() == 0 ==> rows@[i]@ == seq![BOS_TOKEN]
                },
        decreases texts.len() - k,
    {
        match token_ids(vocabulary, texts[k]) {
            Ok(ids) => {
                rows.push(ids);
            },
            Err(error) => {
                proof {
                    assert(vocabulary.tokens_of(texts@[k as int]@) is None);
                    assert forall|j: int| 0 <= j < k implies vocabulary.tokens_of(
                        (#[trigger] texts@[j])@,
                    ) is Some by {
                        assert(vocabulary.tokens_of(texts@[j]@) == Some(rows@[j]@));
                    }
                }
                return Err(error);
            },
        }
        k = k + 1;
    }
    Ok(rows)
}

} // verus!
