//! Token encode/decode capability and the byte buffering that repairs
//! UTF-8 characters split across tokens. The vocabulary-driven encoders
//! work on token byte strings; decoding feeds token bytes through a
//! buffer that withholds incomplete UTF-8 prefixes until they complete or
//! are proven hopeless.
use vstd::prelude::*;
use vstd::utf8::decode_utf8;
use vstd::utf8::encode_utf8;
use vstd::utf8::is_continuation_byte;
use vstd::utf8::valid_utf8;

use crate::error::ErrorKind;

verus! {

/// Identifier of a token in a vocabulary.
pub type TokenID = usize;

/// What `String::from_utf8_lossy` decodes a byte sequence to; on valid
/// UTF-8 it agrees with `decode_utf8`.
pub uninterp spec fn lossy_decode(bytes: Seq<u8>) -> Seq<char>;

/// Relies on `std::str::from_utf8` (and `str::to_owned`): decoding
/// succeeds exactly on valid UTF-8 and yields the decoded characters.
#[verifier::external_body]
fn utf8_to_string(bytes: &[u8]) -> (r: Option<String>)
    ensures
        r is Some <==> valid_utf8(bytes@),
        r is Some ==> r->0@ == decode_utf8(bytes@),
{
    match std::str::from_utf8(bytes) {
        Ok(s) => Some(s.to_owned()),
        Err(_) => None,
    }
}

/// Relies on `String::from_utf8_lossy`: the result is a function of the
/// bytes alone, and equals the plain decoding when the bytes are valid
/// UTF-8.
#[verifier::external_body]
fn utf8_to_string_lossy(bytes: &[u8]) -> (r: String)
    ensures
        r@ == lossy_decode(bytes@),
        valid_utf8(bytes@) ==> r@ == decode_utf8(bytes@),
{
    String::from_utf8_lossy(bytes).into_owned()
}

/// True when `byte` can start a UTF-8 character, i.e. it is not a
/// continuation byte (`10xxxxxx`).
pub fn is_utf8_start(byte: u8) -> (r: bool)
    ensures
        r == !is_continuation_byte(byte),
{
    proof {
        assert(((byte & 0xC0) != 0x80) == !(0x80 <= byte && byte <= 0xbf)) by (bit_vector);
    }
    (byte & 0xC0) != 0x80
}

/// What one `Utf8Buf::step` call returns, given the buffered bytes and
/// the incoming bytes: valid incoming bytes pass through; otherwise the
/// concatenation is flushed once it is valid or hopeless (4 bytes or
/// more), and withheld while a completion is still possible.
pub open spec fn step_output(buf: Seq<u8>, bytes: Seq<u8>) -> Seq<char> {
    if valid_utf8(bytes) {
        decode_utf8(bytes)
    } else {
        let nb = buf + bytes;
        if valid_utf8(nb) {
            decode_utf8(nb)
        } else if nb.len() >= 4 {
            lossy_decode(nb)
        } else {
            Seq::empty()
        }
    }
}

/// What one `Utf8Buf::step` call leaves buffered.
pub open spec fn step_residue(buf: Seq<u8>, bytes: Seq<u8>) -> Seq<u8> {
    if valid_utf8(bytes) {
        buf
    } else {
        let nb = buf + bytes;
        if valid_utf8(nb) || nb.len() >= 4 {
            Seq::empty()
        } else {
            nb
        }
    }
}

/// Buffers token bytes until they form valid UTF-8, for the cases where
/// one character is split across several tokens.
pub struct Utf8Buf {
    buf: Vec<u8>,
}

impl Utf8Buf {
    pub closed spec fn spec_buf(&self) -> Seq<u8> {
        self.buf@
    }

    pub fn new() -> (r: Utf8Buf)
        ensures
            r.spec_buf() == Seq::<u8>::empty(),
    {
        Utf8Buf { buf: Vec::with_capacity(128) }
    }

    /// True when the buffered bytes are valid UTF-8.
    pub fn is_valid(&self) -> (r: bool)
        ensures
            r == valid_utf8(self.spec_buf()),
    {
        utf8_to_string(self.buf.as_slice()).is_some()
    }

    /// Feeds the next token's bytes through the buffer; returns the
    /// characters released by this step and keeps the undecidable rest.
    pub fn step(&mut self, bytes: &[u8]) -> (r: String)
        ensures
            r@ == step_output(old(self).spec_buf(), bytes@),
            final(self).spec_buf() == step_residue(old(self).spec_buf(), bytes@),
    {
        match utf8_to_string(bytes) {
            Some(s) => {
                return s;
            },
            None => {},
        }
        extend_bytes(&mut self.buf, bytes);
        match utf8_to_string(self.buf.as_slice()) {
            Some(s) => {
                self.buf.clear();
                s
            },
            None => {
                if self.buf.len() >= 4 {
                    let s = utf8_to_string_lossy(self.buf.as_slice());
                    self.buf.clear();
                    s
                } else {
                    String::new()
                }
            },
        }
    }
}

/// Appends all of `src` to `dst`.
fn extend_bytes(dst: &mut Vec<u8>, src: &[u8])
    ensures
        final(dst)@ == old(dst)@ + src@,
{
    let n: usize = src.len();
    let mut i: usize = 0;
    while i < n
        invariant
            n == src@.len(),
            0 <= i <= n,
            dst@ == old(dst)@ + src@.take(i as int),
        decreases n - i,
    {
        dst.push(src[i]);
        proof {
            assert(old(dst)@ + src@.take(i as int) + seq![src@[i as int]] =~= old(dst)@
                + src@.take(i as int + 1));
        }
        i += 1;
    }
    proof {
        assert(src@.take(n as int) =~= src@);
    }
}

/// The byte strings of a vocabulary, token by token.
pub open spec fn vocab_view(v: Seq<Vec<u8>>) -> Seq<Seq<u8>> {
    Seq::new(v.len(), |i: int| v[i]@)
}

/// True when `t` is an initial segment of `s`.
pub open spec fn is_prefix_of(t: Seq<u8>, s: Seq<u8>) -> bool {
    t.len() <= s.len() && t == s.take(t.len() as int)
}

/// The greedy choice at the head of `s` among the first `n` vocabulary
/// tokens: the first longest nonempty token that prefixes `s`, if any.
pub open spec fn best_match(vocab: Seq<Seq<u8>>, s: Seq<u8>, n: int) -> Option<int>
    decreases n,
{
    if n <= 0 {
        Option::None
    } else {
        let prev = best_match(vocab, s, n - 1);
        if vocab[n - 1].len() > 0 && is_prefix_of(vocab[n - 1], s) && (prev is None || vocab[n
            - 1].len() > vocab[prev->0].len()) {
            Option::Some(n - 1)
        } else {
            prev
        }
    }
}

/// A successful greedy choice names an in-range, nonempty token that
/// prefixes `s`.
pub proof fn lemma_best_match_props(vocab: Seq<Seq<u8>>, s: Seq<u8>, n: int)
    requires
        n <= vocab.len(),
        best_match(vocab, s, n) is Some,
    ensures
        ({
            let t = best_match(vocab, s, n)->0;
            &&& 0 <= t < n
            &&& vocab[t].len() > 0
            &&& is_prefix_of(vocab[t], s)
        }),
    decreases n,
{
    if n > 0 {
        if best_match(vocab, s, n - 1) is Some {
            lemma_best_match_props(vocab, s, n - 1);
        }
    }
}

/// The greedy tokenization of `s`: repeatedly take the best match at the
/// head; a byte no token matches is skipped.
pub open spec fn greedy_ids(vocab: Seq<Seq<u8>>, s: Seq<u8>) -> Seq<TokenID>
    decreases s.len(),
    via greedy_ids_decreases
{
    if s.len() == 0 {
        Seq::empty()
    } else {
        match best_match(vocab, s, vocab.len() as int) {
            Option::Some(t) => seq![t as usize] + greedy_ids(vocab, s.skip(vocab[t].len() as int)),
            Option::None => greedy_ids(vocab, s.skip(1)),
        }
    }
}

#[via_fn]
proof fn greedy_ids_decreases(vocab: Seq<Seq<u8>>, s: Seq<u8>) {
    if s.len() > 0 {
        match best_match(vocab, s, vocab.len() as int) {
            Option::Some(t) => {
                lemma_best_match_props(vocab, s, vocab.len() as int);
            },
            Option::None => {},
        }
    }
}

/// True when token `tok` matches `bytes` at position `pos`.
fn token_matches_at(tok: &Vec<u8>, bytes: &[u8], pos: usize) -> (r: bool)
    requires
        pos <= bytes@.len(),
    ensures
        r == is_prefix_of(tok@, bytes@.skip(pos as int)),
{
    let tlen: usize = tok.len();
    if tlen > bytes.len() - pos {
        return false;
    }
    let mut j: usize = 0;
    while j < tlen
        invariant
            tlen == tok@.len(),
            bytes@.len() <= usize::MAX,
            pos + tlen <= bytes@.len(),
            0 <= j <= tlen,
            forall|j2: int| 0 <= j2 < j ==> tok@[j2] == bytes@[pos + j2],
        decreases tlen - j,
    {
        if tok[j] != bytes[pos + j] {
            proof {
                assert(bytes@.skip(pos as int).take(tlen as int)[j as int] == bytes@[pos + j]);
            }
            return false;
        }
        j += 1;
    }
    proof {
        assert(tok@ =~= bytes@.skip(pos as int).take(tlen as int));
    }
    true
}

/// The greedy choice at position `pos` of `bytes`, over the whole
/// vocabulary; decides `best_match` on the remaining suffix.
fn best_match_at(vocab: &Vec<Vec<u8>>, bytes: &[u8], pos: usize) -> (r: Option<TokenID>)
    requires
        pos <= bytes@.len(),
    ensures
        ({
            let sbm = best_match(vocab_view(vocab@), bytes@.skip(pos as int), vocab@.len() as int);
            match r {
                Option::Some(t) => sbm == Option::<int>::Some(t as int),
                Option::None => sbm is None,
            }
        }),
{
    let mut best: Option<TokenID> = None;
    let mut i: usize = 0;
    while i < vocab.len()
        invariant
            pos <= bytes@.len(),
            0 <= i <= vocab@.len(),
            ({
                let sbm = best_match(vocab_view(vocab@), bytes@.skip(pos as int), i as int);
                match best {
                    Option::Some(t) => sbm == Option::<int>::Some(t as int) && t < i,
                    Option::None => sbm is None,
                }
            }),
        decreases vocab@.len() - i,
    {
        let tok = &vocab[i];
        let nonempty_match: bool = tok.len() > 0 && token_matches_at(tok, bytes, pos);
        let improves: bool = match best {
            Some(t) => tok.len() > vocab[t].len(),
            None => true,
        };
        if nonempty_match && improves {
            best = Some(i);
        }
        i += 1;
    }
    best
}

/// The greedy tokenization of `bytes` over `vocab`, matching
/// `greedy_ids`.
fn encode_greedy(vocab: &Vec<Vec<u8>>, bytes: &[u8]) -> (r: Vec<TokenID>)
    ensures
        r@ == greedy_ids(vocab_view(vocab@), bytes@),
{
    let ghost vv = vocab_view(vocab@);
    let total: usize = bytes.len();
    let mut out: Vec<TokenID> = Vec::new();
    let mut pos: usize = 0;
    proof {
        assert(bytes@.skip(0) =~= bytes@);
        assert(Seq::<TokenID>::empty() + greedy_ids(vv, bytes@) =~= greedy_ids(vv, bytes@));
    }
    while pos < total
        invariant
            total == bytes@.len(),
            0 <= pos <= total,
            vv == vocab_view(vocab@),
            greedy_ids(vv, bytes@) == out@ + greedy_ids(vv, bytes@.skip(pos as int)),
        decreases total - pos,
    {
        let ghost s = bytes@.skip(pos as int);
        match best_match_at(vocab, bytes, pos) {
            Some(t) => {
                proof {
                    lemma_best_match_props(vv, s, vv.len() as int);
                }
                let tlen: usize = vocab[t].len();
                out.push(t);
                proof {
                    assert(s.skip(tlen as int) =~= bytes@.skip(pos as int + tlen as int));
                    assert(out@ =~= out@.drop_last().push(t as usize));
                    assert(greedy_ids(vv, s) == seq![t as usize] + greedy_ids(
                        vv,
                        bytes@.skip(pos as int + tlen as int),
                    ));
                    assert(out@.drop_last() + (seq![t as usize] + greedy_ids(
                        vv,
                        bytes@.skip(pos as int + tlen as int),
                    )) =~= out@ + greedy_ids(vv, bytes@.skip(pos as int + tlen as int)));
                }
                pos += tlen;
            },
            None => {
                proof {
                    assert(s.skip(1) =~= bytes@.skip(pos as int + 1));
                    assert(greedy_ids(vv, s) == greedy_ids(vv, bytes@.skip(pos as int + 1)));
                }
                pos += 1;
            },
        }
    }
    proof {
        assert(bytes@.skip(total as int) =~= Seq::<u8>::empty());
        assert(out@ + greedy_ids(vv, Seq::<u8>::empty()) =~= out@);
    }
    out
}

/// The token ids produced by one encode call: the greedy ids, optionally
/// framed by the begin and end sentinel tokens.
pub open spec fn framed_ids(
    vocab: Seq<Seq<u8>>,
    s: Seq<u8>,
    bos: bool,
    bos_token: TokenID,
    eos: bool,
    eos_token: TokenID,
) -> Seq<TokenID> {
    (if bos {
        seq![bos_token]
    } else {
        Seq::empty()
    }) + greedy_ids(vocab, s) + (if eos {
        seq![eos_token]
    } else {
        Seq::empty()
    })
}

/// A byte-string vocabulary with sentinel token ids; the decode side is a
/// plain lookup, the encode side the greedy longest-match tokenizer.
pub struct LlamaTokenizer {
    token_bytes: Vec<Vec<u8>>,
    bos_token: TokenID,
    eos_token: TokenID,
}

impl LlamaTokenizer {
    pub closed spec fn spec_vocab_bytes(&self) -> Seq<Seq<u8>> {
        vocab_view(self.token_bytes@)
    }

    pub closed spec fn spec_bos_token(&self) -> TokenID {
        self.bos_token
    }

    pub closed spec fn spec_eos_token(&self) -> TokenID {
        self.eos_token
    }

    pub fn new(token_bytes: Vec<Vec<u8>>, bos_token: TokenID, eos_token: TokenID) -> (r:
        LlamaTokenizer)
        ensures
            r.spec_vocab_bytes() == vocab_view(token_bytes@),
            r.spec_bos_token() == bos_token,
            r.spec_eos_token() == eos_token,
    {
        LlamaTokenizer { token_bytes, bos_token, eos_token }
    }

    /// The raw bytes of one token.
    pub fn decode(&self, token: TokenID) -> (r: Vec<u8>)
        requires
            token < self.spec_vocab_bytes().len(),
        ensures
            r@ == self.spec_vocab_bytes()[token as int],
    {
        clone_bytes(&self.token_bytes[token])
    }

    /// Greedy tokenization of `bytes`, optionally framed by the
    /// sentinels.
    pub fn encode(&self, bytes: &[u8], bos: bool, eos: bool) -> (r: Vec<TokenID>)
        ensures
            r@ == framed_ids(
                self.spec_vocab_bytes(),
                bytes@,
                bos,
                self.spec_bos_token(),
                eos,
                self.spec_eos_token(),
            ),
    {
        let mut out: Vec<TokenID> = Vec::new();
        if bos {
            out.push(self.bos_token);
        }
        let mut ids = encode_greedy(&self.token_bytes, bytes);
        out.append(&mut ids);
        if eos {
            out.push(self.eos_token);
        }
        proof {
            assert(out@ =~= framed_ids(
                self.spec_vocab_bytes(),
                bytes@,
                bos,
                self.spec_bos_token(),
                eos,
                self.spec_eos_token(),
            ));
        }
        out
    }
}

/// A second vocabulary-driven codec with the same capability surface.
pub struct Gpt2Tokenizer {
    token_bytes: Vec<Vec<u8>>,
    bos_token: TokenID,
    eos_token: TokenID,
}

impl Gpt2Tokenizer {
    pub closed spec fn spec_vocab_bytes(&self) -> Seq<Seq<u8>> {
        vocab_view(self.token_bytes@)
    }

    pub closed spec fn spec_bos_token(&self) -> TokenID {
        self.bos_token
    }

    pub closed spec fn spec_eos_token(&self) -> TokenID {
        self.eos_token
    }

    pub fn new(token_bytes: Vec<Vec<u8>>, bos_token: TokenID, eos_token: TokenID) -> (r:
        Gpt2Tokenizer)
        ensures
            r.spec_vocab_bytes() == vocab_view(token_bytes@),
            r.spec_bos_token() == bos_token,
            r.spec_eos_token() == eos_token,
    {
        Gpt2Tokenizer { token_bytes, bos_token, eos_token }
    }

    /// The raw bytes of one token.
    pub fn decode(&self, token: TokenID) -> (r: Vec<u8>)
        requires
            token < self.spec_vocab_bytes().len(),
        ensures
            r@ == self.spec_vocab_bytes()[token as int],
    {
        clone_bytes(&self.token_bytes[token])
    }

    /// Greedy tokenization of `bytes`, optionally framed by the
    /// sentinels.
    pub fn encode(&self, bytes: &[u8], bos: bool, eos: bool) -> (r: Vec<TokenID>)
        ensures
            r@ == framed_ids(
                self.spec_vocab_bytes(),
                bytes@,
                bos,
                self.spec_bos_token(),
                eos,
                self.spec_eos_token(),
            ),
    {
        let mut out: Vec<TokenID> = Vec::new();
        if bos {
            out.push(self.bos_token);
        }
        let mut ids = encode_greedy(&self.token_bytes, bytes);
        out.append(&mut ids);
        if eos {
            out.push(self.eos_token);
        }
        proof {
            assert(out@ =~= framed_ids(
                self.spec_vocab_bytes(),
                bytes@,
                bos,
                self.spec_bos_token(),
                eos,
                self.spec_eos_token(),
            ));
        }
        out
    }
}

/// Copies a byte vector.
fn clone_bytes(v: &Vec<u8>) -> (r: Vec<u8>)
    ensures
        r@ == v@,
{
    let mut r: Vec<u8> = Vec::new();
    let mut i: usize = 0;
    while i < v.len()
        invariant
            0 <= i <= v@.len(),
            r@ == v@.take(i as int),
        decreases v@.len() - i,
    {
        r.push(v[i]);
        proof {
            assert(v@.take(i as int).push(v@[i as int]) =~= v@.take(i as int + 1));
        }
        i += 1;
    }
    proof {
        assert(v@.take(v@.len() as int) =~= v@);
    }
    r
}

/// The inner encode/decode capability a `Tokenizer` dispatches to.
pub enum TokenizerInner {
    Llama(LlamaTokenizer),
    GPT2(Gpt2Tokenizer),
}

impl TokenizerInner {
    pub open spec fn spec_vocab_bytes(&self) -> Seq<Seq<u8>> {
        match self {
            TokenizerInner::Llama(t) => t.spec_vocab_bytes(),
            TokenizerInner::GPT2(t) => t.spec_vocab_bytes(),
        }
    }

    pub open spec fn spec_bos_token(&self) -> TokenID {
        match self {
            TokenizerInner::Llama(t) => t.spec_bos_token(),
            TokenizerInner::GPT2(t) => t.spec_bos_token(),
        }
    }

    pub open spec fn spec_eos_token(&self) -> TokenID {
        match self {
            TokenizerInner::Llama(t) => t.spec_eos_token(),
            TokenizerInner::GPT2(t) => t.spec_eos_token(),
        }
    }
}

/// The tokenizer facade: a vocabulary of token strings, an inner codec
/// over those tokens' bytes, and the UTF-8 repair buffer used while
/// decoding token streams.
pub struct Tokenizer {
    tokens: Vec<String>,
    eos_token: TokenID,
    inner: TokenizerInner,
    decode_buf: Utf8Buf,
}

impl Tokenizer {
    pub closed spec fn spec_tokens(&self) -> Seq<String> {
        self.tokens@
    }

    pub closed spec fn spec_eos_token(&self) -> TokenID {
        self.eos_token
    }

    pub closed spec fn spec_inner(&self) -> TokenizerInner {
        self.inner
    }

    pub closed spec fn spec_decode_buf(&self) -> Seq<u8> {
        self.decode_buf.spec_buf()
    }

    /// The inner vocabulary holds exactly the UTF-8 bytes of the token
    /// strings.
    pub open spec fn wf(&self) -> bool {
        &&& self.spec_inner().spec_vocab_bytes().len() == self.spec_tokens().len()
        &&& forall|i: int|
            0 <= i < self.spec_tokens().len() ==> self.spec_inner().spec_vocab_bytes()[i]
                == encode_utf8(self.spec_tokens()[i]@)
    }

    /// Builds a tokenizer over the given vocabulary, with a fresh decode
    /// buffer and the byte-level codec derived from the token strings.
    pub fn new(tokens: Vec<String>, bos_token: TokenID, eos_token: TokenID) -> (r: Tokenizer)
        ensures
            r.wf(),
            r.spec_tokens() == tokens@,
            r.spec_eos_token() == eos_token,
            r.spec_inner().spec_bos_token() == bos_token,
            r.spec_inner().spec_eos_token() == eos_token,
            r.spec_decode_buf() == Seq::<u8>::empty(),
    {
        let mut token_bytes: Vec<Vec<u8>> = Vec::new();
        let mut i: usize = 0;
        while i < tokens.len()
            invariant
                0 <= i <= tokens@.len(),
                token_bytes@.len() == i,
                forall|j: int| 0 <= j < i ==> token_bytes@[j]@ == encode_utf8(tokens@[j]@),
            decreases tokens@.len() - i,
        {
            token_bytes.push(bytes_of_str(tokens[i].as_str()));
            i += 1;
        }
        let inner = TokenizerInner::Llama(LlamaTokenizer::new(token_bytes, bos_token, eos_token));
        Tokenizer { tokens, eos_token, inner, decode_buf: Utf8Buf::new() }
    }

    /// The vocabulary, in token id order.
    pub fn vocab(&self) -> (r: &Vec<String>)
        ensures
            r@ == self.spec_tokens(),
    {
        &self.tokens
    }

    pub fn eos_token(&self) -> (r: TokenID)
        ensures
            r == self.spec_eos_token(),
    {
        self.eos_token
    }

    /// The string of one token.
    pub fn token(&self, token_id: TokenID) -> (r: String)
        requires
            token_id < self.spec_tokens().len(),
        ensures
            r@ == self.spec_tokens()[token_id as int]@,
    {
        self.tokens[token_id].clone()
    }

    /// Decodes one token: its bytes pass through the UTF-8 repair buffer
    /// and the characters released by this step come back. Rejected
    /// inputs: a token id outside the vocabulary.
    pub fn decode(&mut self, token: TokenID) -> (r: Result<String, ErrorKind>)
        requires
            old(self).wf(),
        ensures
            final(self).wf(),
            r is Ok <==> token < old(self).spec_tokens().len(),
            r is Err ==> r == Result::<String, ErrorKind>::Err(ErrorKind::InvalidArgument),
            r is Err ==> *final(self) == *old(self),
            r is Ok ==> {
                let bytes = old(self).spec_inner().spec_vocab_bytes()[token as int];
                &&& r->Ok_0@ == step_output(old(self).spec_decode_buf(), bytes)
                &&& final(self).spec_decode_buf() == step_residue(
                    old(self).spec_decode_buf(),
                    bytes,
                )
                &&& final(self).spec_tokens() == old(self).spec_tokens()
                &&& final(self).spec_inner() == old(self).spec_inner()
                &&& final(self).spec_eos_token() == old(self).spec_eos_token()
            },
    {
        if token >= self.tokens.len() {
            return Err(ErrorKind::InvalidArgument);
        }
        let bytes = match &self.inner {
            TokenizerInner::Llama(inner) => inner.decode(token),
            TokenizerInner::GPT2(inner) => inner.decode(token),
        };
        Ok(self.decode_buf.step(bytes.as_slice()))
    }

    /// Encodes `text`: the greedy tokenization of its UTF-8 bytes,
    /// optionally framed by the begin and end sentinel tokens.
    pub fn encode(&self, text: &str, bos: bool, eos: bool) -> (r: Result<Vec<TokenID>, ErrorKind>)
        ensures
            r is Ok,
            r->Ok_0@ == framed_ids(
                self.spec_inner().spec_vocab_bytes(),
                encode_utf8(text@),
                bos,
                self.spec_inner().spec_bos_token(),
                eos,
                self.spec_inner().spec_eos_token(),
            ),
    {
        let bytes = text.as_bytes();
        match &self.inner {
            TokenizerInner::Llama(inner) => Ok(inner.encode(bytes, bos, eos)),
            TokenizerInner::GPT2(inner) => Ok(inner.encode(bytes, bos, eos)),
        }
    }
}

/// The UTF-8 bytes of a string slice.
fn bytes_of_str(s: &str) -> (r: Vec<u8>)
    ensures
        r@ == encode_utf8(s@),
{
    let b: &[u8] = s.as_bytes();
    vstd::slice::slice_to_vec(b)
}

} // verus!
