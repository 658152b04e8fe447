use vstd::prelude::*;

verus! {

#[verifier::external_type_specification]
#[verifier::external_body]
pub struct ExHasher(blake3::Hasher);

/// The bytes that a BLAKE3 hasher has taken in since it was made.
pub uninterp spec fn absorbed(h: blake3::Hasher) -> Seq<u8>;

/// The lowercase hex BLAKE3 digest of a byte sequence.
pub uninterp spec fn blake3_hex(input: Seq<u8>) -> Seq<char>;

/// A digit of lowercase hexadecimal.
pub open spec fn is_lower_hex_digit(c: char) -> bool {
    ('0' <= c && c <= '9') || ('a' <= c && c <= 'f')
}

/// Relies on blake3's `Hasher::new`: a hasher that has taken in nothing.
#[verifier::external_body]
fn fresh_hasher() -> (r: blake3::Hasher)
    ensures
        absorbed(r) == Seq::<u8>::empty(),
{
    blake3::Hasher::new()
}

/// Relies on blake3's `Hasher::update`: the chunk is appended to the input.
#[verifier::external_body]
fn absorb(h: &mut blake3::Hasher, chunk: &[u8])
    ensures
        absorbed(*final(h)) == absorbed(*old(h)) + chunk@,
{
    h.update(chunk);
}

/// Relies on blake3's `Hasher::finalize` and `Hash::to_hex`: the digest of the
/// whole input, as 64 lowercase hex digits.
#[verifier::external_body]
fn hex_digest(h: &blake3::Hasher) -> (r: String)
    ensures
        r@ == blake3_hex(absorbed(*h)),
        r@.len() == 64,
        forall|i: int| 0 <= i < r@.len() ==> is_lower_hex_digit(#[trigger] r@[i]),
{
    h.finalize().to_hex().to_string()
}

/// An incremental digest over a sequence of chunks that the caller supplies.
pub struct VeghStreamingHasher {
    hasher: blake3::Hasher,
}

impl View for VeghStreamingHasher {
    type V = Seq<u8>;

    /// Every byte taken in so far, in order.
    closed spec fn view(&self) -> Seq<u8> {
        absorbed(self.hasher)
    }
}

impl VeghStreamingHasher {
    pub fn new() -> (r: VeghStreamingHasher)
        ensures
            r@ == Seq::<u8>::empty(),
    {
        VeghStreamingHasher { hasher: fresh_hasher() }
    }

    pub fn update(&mut self, chunk: &[u8])
        ensures
            final(self)@ == old(self)@ + chunk@,
    {
        absorb(&mut self.hasher, chunk);
    }

    /// Consumes the accumulator: it cannot be updated or finalized again.
    pub fn finalize(self) -> (r: String)
        ensures
            r@ == blake3_hex(self@),
            r@.len() == 64,
            forall|i: int| 0 <= i < r@.len() ==> is_lower_hex_digit(#[trigger] r@[i]),
    {
        hex_digest(&self.hasher)
    }
}

/// What a new accumulator holds after `update` with each of `chunks`, in order.
pub open spec fn fed(chunks: Seq<Seq<u8>>) -> Seq<u8>
    decreases chunks.len(),
{
    if chunks.len() == 0 {
        Seq::<u8>::empty()
    } else {
        fed(chunks.drop_last()) + chunks.last()
    }
}

/// The digest does not depend on how the input was cut into chunks: feeding
/// the chunks of any partition in order leaves the accumulator holding their
/// concatenation, so `finalize` gives what one `update` with the whole gives.
pub proof fn lemma_digest_ignores_chunking(chunks: Seq<Seq<u8>>)
    ensures
        fed(chunks) == chunks.flatten(),
        blake3_hex(fed(chunks)) == blake3_hex(fed(seq![chunks.flatten()])),
    decreases chunks.len(),
{
    chunks.lemma_flatten_and_flatten_alt_are_equivalent();
    lemma_fed_is_flatten_alt(chunks);
    let whole = seq![chunks.flatten()];
    assert(whole.drop_last() =~= Seq::<Seq<u8>>::empty());
    assert(fed(whole.drop_last()) == Seq::<u8>::empty());
    assert(whole.last() == chunks.flatten());
    assert(fed(whole) == fed(whole.drop_last()) + whole.last());
    assert(fed(whole) =~= chunks.flatten());
}

proof fn lemma_fed_is_flatten_alt(chunks: Seq<Seq<u8>>)
    ensures
        fed(chunks) == chunks.flatten_alt(),
    decreases chunks.len(),
{
    if chunks.len() > 0 {
        lemma_fed_is_flatten_alt(chunks.drop_last());
    }
}

} // verus!
