use vstd::prelude::*;

verus! {

/// Builder of the word stream handed to a proof program as its input.
/// Values are appended as their serialised 32-bit words.
pub struct InputBuilder {
    input: Vec<u32>,
}

/// Little-endian bytes of a word.
pub open spec fn le_word(w: u32) -> Seq<u8> {
    seq![w as u8, (w >> 8u32) as u8, (w >> 16u32) as u8, (w >> 24u32) as u8]
}

/// Big-endian bytes of a word.
pub open spec fn be_word(w: u32) -> Seq<u8> {
    seq![(w >> 24u32) as u8, (w >> 16u32) as u8, (w >> 8u32) as u8, w as u8]
}

/// The words' little-endian bytes, one word after another.
pub open spec fn words_le(ws: Seq<u32>) -> Seq<u8>
    decreases ws.len(),
{
    if ws.len() == 0 {
        Seq::empty()
    } else {
        words_le(ws.drop_last()) + le_word(ws.last())
    }
}

/// The words' big-endian bytes, one word after another.
pub open spec fn words_be(ws: Seq<u32>) -> Seq<u8>
    decreases ws.len(),
{
    if ws.len() == 0 {
        Seq::empty()
    } else {
        words_be(ws.drop_last()) + be_word(ws.last())
    }
}

/// Relies on bytemuck::cast_slice from `u32` to `u8`: it reinterprets the
/// words in place, so each word gives its four bytes in the machine's byte
/// order, which is little-endian or big-endian throughout; it never fails
/// for this pair of types since `u8` has alignment one and size one.
#[verifier::external_body]
fn words_to_bytes(words: &Vec<u32>) -> (r: Vec<u8>)
    ensures
        r@ == words_le(words@) || r@ == words_be(words@),
{
    bytemuck::cast_slice::<u32, u8>(words.as_slice()).to_vec()
}

impl InputBuilder {
    /// The words appended so far.
    pub closed spec fn words(&self) -> Seq<u32> {
        self.input@
    }

    /// An empty builder.
    pub fn new() -> (r: Self)
        ensures
            r.words() == Seq::<u32>::empty(),
    {
        InputBuilder { input: Vec::new() }
    }

    /// Appends already serialised words; the result holds the old words
    /// followed by the new ones.
    pub fn write(self, words: &[u32]) -> (r: Self)
        ensures
            r.words() == self.words() + words@,
    {
        let mut input = self.input;
        let ghost start = input@;
        let mut i: usize = 0;
        while i < words.len()
            invariant
                0 <= i <= words@.len(),
                input@ == start + words@.subrange(0, i as int),
            decreases words@.len() - i,
        {
            input.push(words[i]);
            i = i + 1;
            assert(input@ =~= start + words@.subrange(0, i as int));
        }
        assert(words@.subrange(0, words@.len() as int) =~= words@);
        InputBuilder { input }
    }

    /// The number of words appended so far.
    pub fn len_words(&self) -> (r: usize)
        ensures
            r == self.words().len(),
    {
        self.input.len()
    }

    /// The input as bytes: each word becomes its four bytes in the
    /// machine's byte order.
    pub fn bytes(self) -> (r: Vec<u8>)
        ensures
            r@ == words_le(self.words()) || r@ == words_be(self.words()),
    {
        words_to_bytes(&self.input)
    }
}

} // verus!
