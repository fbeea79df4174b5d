//! Turning text into tokens and tokens into text.

use vstd::prelude::*;
use vstd::utf8::{
    decode_utf8, encode_utf8, encode_utf8_decode_utf8, encode_utf8_valid_utf8, is_ascii_chars,
    is_ascii_chars_encode_utf8, valid_utf8,
};

use crate::protocol::{message_contents, InferenceMessage};

verus! {

/// The token with which a sequence starts.
pub const START_TOKEN: u32 = 1;

/// The UTF-8 bytes of texts, one after the other.
pub open spec fn content_bytes(contents: Seq<Seq<char>>) -> Seq<u8>
    decreases contents.len(),
{
    if contents.len() == 0 {
        Seq::empty()
    } else {
        content_bytes(contents.drop_last()) + encode_utf8(contents.last())
    }
}

/// The token of a byte in a vocabulary of `vocab` tokens.
pub open spec fn byte_token(byte: u8, vocab: u32) -> u32 {
    (byte as u32) % vocab
}

/// The tokens of texts: one for each UTF-8 byte.
pub open spec fn content_tokens(contents: Seq<Seq<char>>, vocab: u32) -> Seq<u32> {
    content_bytes(contents).map_values(|byte: u8| byte_token(byte, vocab))
}

/// Appends the tokens of messages to `tokens`.
pub(crate) fn push_message_tokens(
    tokens: &mut Vec<u32>,
    messages: &Vec<InferenceMessage>,
    vocab: u32,
)
    requires
        vocab != 0 || content_bytes(message_contents(messages@)).len() == 0,
    ensures
        final(tokens)@ == old(tokens)@ + content_tokens(message_contents(messages@), vocab),
{
    let ghost start = tokens@;
    let ghost contents = message_contents(messages@);
    let mut i: usize = 0;
    assert(tokens@ =~= start + content_tokens(contents.take(0), vocab));
    while i < messages.len()
        invariant
            i <= messages.len(),
            contents == message_contents(messages@),
            vocab != 0 || content_bytes(contents).len() == 0,
            tokens@ == start + content_tokens(contents.take(i as int), vocab),
        decreases messages.len() - i,
    {
        let bytes = messages[i].content.as_str().as_bytes();
        let ghost before = tokens@;
        let ghost earlier = contents.take(i as int);
        proof {
            assert(contents.take(i + 1).drop_last() =~= earlier);
            assert(contents.take(i + 1).last() == messages@[i as int].content@);
            assert(content_bytes(contents.take(i + 1)) == content_bytes(earlier) + bytes@);
            lemma_content_bytes_grow(contents, i + 1);
        }
        let mut j: usize = 0;
        while j < bytes.len()
            invariant
                j <= bytes.len(),
                vocab != 0 || bytes@.len() == 0,
                tokens@ == before + bytes@.take(j as int).map_values(
                    |byte: u8| byte_token(byte, vocab),
                ),
            decreases bytes.len() - j,
        {
            tokens.push((bytes[j] as u32) % vocab);
            assert(tokens@ =~= before + bytes@.take(j + 1).map_values(
                |byte: u8| byte_token(byte, vocab),
            ));
            j = j + 1;
        }
        proof {
            assert(bytes@.take(bytes@.len() as int) =~= bytes@);
            assert(tokens@ =~= start + content_tokens(contents.take(i + 1), vocab));
        }
        i = i + 1;
    }
    assert(contents.take(contents.len() as int) =~= contents);
}

/// The first texts have no more bytes than all of them.
proof fn lemma_content_bytes_grow(contents: Seq<Seq<char>>, n: int)
    requires
        0 <= n <= contents.len(),
    ensures
        content_bytes(contents.take(n)).len() <= content_bytes(contents).len(),
    decreases contents.len() - n,
{
    if n < contents.len() {
        lemma_content_bytes_grow(contents, n + 1);
        assert(contents.take(n + 1).drop_last() =~= contents.take(n));
    } else {
        assert(contents.take(n) =~= contents);
    }
}

/// Whether messages have no bytes.
pub(crate) fn without_bytes(messages: &Vec<InferenceMessage>) -> (r: bool)
    ensures
        r == (content_bytes(message_contents(messages@)).len() == 0),
{
    let ghost contents = message_contents(messages@);
    let mut i: usize = 0;
    assert(contents.take(0) =~= Seq::empty());
    while i < messages.len()
        invariant
            i <= messages.len(),
            contents == message_contents(messages@),
            content_bytes(contents.take(i as int)).len() == 0,
        decreases messages.len() - i,
    {
        let bytes = messages[i].content.as_str().as_bytes();
        proof {
            assert(contents.take(i + 1).drop_last() =~= contents.take(i as int));
            assert(contents.take(i + 1).last() == messages@[i as int].content@);
            lemma_content_bytes_grow(contents, i + 1);
        }
        if bytes.len() > 0 {
            return false;
        }
        i = i + 1;
    }
    assert(contents.take(contents.len() as int) =~= contents);
    true
}

/// How many bytes a text counts for: its length, as far as 32 bits hold it.
pub open spec fn content_length(content: Seq<char>) -> u32 {
    (encode_utf8(content).len() as usize) as u32
}

/// How many bytes texts count for together.
pub open spec fn prompt_length(contents: Seq<Seq<char>>) -> nat
    decreases contents.len(),
{
    if contents.len() == 0 {
        0
    } else {
        prompt_length(contents.drop_last()) + content_length(contents.last()) as nat
    }
}

/// `prompt_length`, where 32 bits hold it.
pub open spec fn prompt_length_u32(contents: Seq<Seq<char>>) -> Option<u32> {
    if prompt_length(contents) <= u32::MAX {
        Some(prompt_length(contents) as u32)
    } else {
        None
    }
}

/// The first texts count for no more than all of them.
proof fn lemma_prompt_length_grows(contents: Seq<Seq<char>>, n: int)
    requires
        0 <= n <= contents.len(),
    ensures
        prompt_length(contents.take(n)) <= prompt_length(contents),
    decreases contents.len() - n,
{
    if n < contents.len() {
        lemma_prompt_length_grows(contents, n + 1);
        assert(contents.take(n + 1).drop_last() =~= contents.take(n));
    } else {
        assert(contents.take(n) =~= contents);
    }
}

/// How many bytes messages count for, where 32 bits hold it.
pub(crate) fn count_prompt(messages: &Vec<InferenceMessage>) -> (total: Option<u32>)
    ensures
        total == prompt_length_u32(message_contents(messages@)),
{
    let ghost contents = message_contents(messages@);
    let mut total: u32 = 0;
    let mut i: usize = 0;
    assert(contents.take(0) =~= Seq::empty());
    while i < messages.len()
        invariant
            i <= messages.len(),
            contents == message_contents(messages@),
            total == prompt_length(contents.take(i as int)),
        decreases messages.len() - i,
    {
        let length: u32 = messages[i].content.as_str().len() as u32;
        proof {
            assert(contents.take(i + 1).drop_last() =~= contents.take(i as int));
            assert(contents.take(i + 1).last() == messages@[i as int].content@);
            lemma_prompt_length_grows(contents, i + 1);
        }
        match total.checked_add(length) {
            Some(sum) => {
                total = sum;
            },
            None => {
                return None;
            },
        }
        i = i + 1;
    }
    assert(contents.take(contents.len() as int) =~= contents);
    Some(total)
}

/// The character that stands for a token.
pub open spec fn token_char(token: u32) -> char {
    (token % 128) as char
}

/// The text that stands for tokens: a character of ASCII for each.
pub open spec fn rendered(tokens: Seq<u32>) -> Seq<char> {
    tokens.map_values(|token: u32| token_char(token))
}

/// Reads bytes as UTF-8 with `String::from_utf8_lossy`, which keeps them as they are where they are
/// valid. What it puts in the place of bytes that are not is left unsaid.
#[verifier::external_body]
fn text_of_utf8(bytes: &[u8]) -> (text: String)
    ensures
        valid_utf8(bytes@) ==> text@ == decode_utf8(bytes@),
{
    String::from_utf8_lossy(bytes).to_string()
}

/// The text that stands for tokens.
pub(crate) fn render_tokens(tokens: &Vec<u32>) -> (text: String)
    ensures
        text@ == rendered(tokens@),
{
    let mut bytes: Vec<u8> = Vec::new();
    let mut i: usize = 0;
    while i < tokens.len()
        invariant
            i <= tokens.len(),
            bytes@.len() == i,
            forall|j: int| 0 <= j < i ==> bytes@[j] as u32 == tokens@[j] % 128,
        decreases tokens.len() - i,
    {
        let byte: u8 = (tokens[i] % 128) as u8;
        bytes.push(byte);
        i = i + 1;
    }
    proof {
        let chars = rendered(tokens@);
        assert(is_ascii_chars(chars));
        is_ascii_chars_encode_utf8(chars);
        assert(bytes@ =~= encode_utf8(chars));
        encode_utf8_valid_utf8(chars);
        encode_utf8_decode_utf8(chars);
    }
    text_of_utf8(bytes.as_slice())
}

} // verus!
