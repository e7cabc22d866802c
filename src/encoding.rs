use vstd::prelude::*;
use crate::config::ModelConfig;

verus! {

broadcast use vstd::std_specs::hash::group_hash_axioms;

/// Phoneme that pads between ids.
pub const PAD: char = '_';

/// Phoneme that opens a sentence.
pub const BOS: char = '^';

/// Phoneme that closes a sentence.
pub const EOS: char = '$';

/// Every phoneme of the vocabulary has at least one id.
pub open spec fn id_map_wf(m: Map<u32, Vec<i64>>) -> bool {
    forall|k: u32| #[trigger] m.contains_key(k) ==> m[k]@.len() > 0
}

/// Whether a phoneme character is in the vocabulary.
pub open spec fn recognized(m: Map<u32, Vec<i64>>, c: char) -> bool {
    m.contains_key(c as u32)
}

/// The id of a phoneme character of the vocabulary.
pub open spec fn id_of(m: Map<u32, Vec<i64>>, c: char) -> i64 {
    m[c as u32]@[0]
}

/// Ids of the recognized phonemes, each followed by the padding id.
pub open spec fn encode_body(m: Map<u32, Vec<i64>>, chars: Seq<char>, pad: i64) -> Seq<i64>
    decreases chars.len(),
{
    if chars.len() == 0 {
        Seq::empty()
    } else {
        let rest = encode_body(m, chars.drop_last(), pad);
        if recognized(m, chars.last()) {
            rest + seq![id_of(m, chars.last()), pad]
        } else {
            rest
        }
    }
}

/// The model input for a phoneme string.
pub open spec fn encode_ids(m: Map<u32, Vec<i64>>, chars: Seq<char>, pad: i64, bos: i64, eos: i64) -> Seq<i64> {
    seq![bos, pad] + encode_body(m, chars, pad) + seq![eos]
}

/// Number of characters of a phoneme string that are in the vocabulary.
pub open spec fn recognized_count(m: Map<u32, Vec<i64>>, chars: Seq<char>) -> nat
    decreases chars.len(),
{
    if chars.len() == 0 {
        0
    } else {
        recognized_count(m, chars.drop_last()) + if recognized(m, chars.last()) {
            1nat
        } else {
            0nat
        }
    }
}

/// The vocabulary holds the padding, opening and closing phonemes.
pub open spec fn has_meta_ids(m: Map<u32, Vec<i64>>) -> bool {
    &&& recognized(m, PAD)
    &&& recognized(m, BOS)
    &&& recognized(m, EOS)
}

proof fn lemma_body_shape(m: Map<u32, Vec<i64>>, chars: Seq<char>, pad: i64)
    ensures
        encode_body(m, chars, pad).len() == 2 * recognized_count(m, chars),
        forall|i: int|
            0 <= i < encode_body(m, chars, pad).len() && i % 2 == 1 ==> #[trigger] encode_body(
                m,
                chars,
                pad,
            )[i] == pad,
    decreases chars.len(),
{
    if chars.len() > 0 {
        lemma_body_shape(m, chars.drop_last(), pad);
    }
}

/// An encoded phoneme string opens with the opening id and a padding id and
/// closes with the closing id; between them it holds two ids for each
/// recognized phoneme, its id and a padding id, so three ids more than twice
/// the number of recognized phonemes in all.
pub proof fn lemma_encoding_shape(m: Map<u32, Vec<i64>>, chars: Seq<char>, pad: i64, bos: i64, eos: i64)
    ensures
        encode_ids(m, chars, pad, bos, eos).len() == 2 * recognized_count(m, chars) + 3,
        encode_ids(m, chars, pad, bos, eos)[0] == bos,
        encode_ids(m, chars, pad, bos, eos)[1] == pad,
        encode_ids(m, chars, pad, bos, eos).last() == eos,
        forall|i: int|
            1 <= i < encode_ids(m, chars, pad, bos, eos).len() - 1 && i % 2 == 1
                ==> #[trigger] encode_ids(m, chars, pad, bos, eos)[i] == pad,
{
    lemma_body_shape(m, chars, pad);
    let body = encode_body(m, chars, pad);
    let r = encode_ids(m, chars, pad, bos, eos);
    assert(r == seq![bos, pad] + body + seq![eos]);
    assert(r[0] == bos && r[1] == pad);
    assert(r.last() == eos);
    assert forall|i: int| 1 <= i < r.len() - 1 && i % 2 == 1 implies #[trigger] r[i] == pad by {
        if i >= 2 {
            assert(r[i] == body[i - 2]);
            assert((i - 2) % 2 == 1);
        }
    }
}

impl ModelConfig {
    /// Whether the vocabulary holds the padding, opening and closing phonemes.
    pub fn has_meta_ids(&self) -> (r: bool)
        ensures
            r == has_meta_ids(self.phoneme_id_map@),
    {
        self.phoneme_id_map.contains_key(&(PAD as u32)) && self.phoneme_id_map.contains_key(
            &(BOS as u32),
        ) && self.phoneme_id_map.contains_key(&(EOS as u32))
    }

    /// The padding, opening and closing ids of the vocabulary.
    pub fn get_meta_ids(&self) -> (r: (i64, i64, i64))
        requires
            id_map_wf(self.phoneme_id_map@),
            has_meta_ids(self.phoneme_id_map@),
        ensures
            r == (
                id_of(self.phoneme_id_map@, PAD),
                id_of(self.phoneme_id_map@, BOS),
                id_of(self.phoneme_id_map@, EOS),
            ),
    {
        let pad = self.phoneme_id_map.get(&(PAD as u32)).unwrap();
        let bos = self.phoneme_id_map.get(&(BOS as u32)).unwrap();
        let eos = self.phoneme_id_map.get(&(EOS as u32)).unwrap();
        (pad[0], bos[0], eos[0])
    }

    /// Encodes a phoneme string as model input: the opening and padding ids,
    /// then the id and a padding id for each phoneme of the vocabulary (others
    /// are skipped), then the closing id.
    pub fn phonemes_to_input_ids(&self, phonemes: &str, pad_id: i64, bos_id: i64, eos_id: i64) -> (r: Vec<i64>)
        requires
            id_map_wf(self.phoneme_id_map@),
        ensures
            r@ == encode_ids(self.phoneme_id_map@, phonemes@, pad_id, bos_id, eos_id),
    {
        let ghost m = self.phoneme_id_map@;
        let mut phoneme_ids: Vec<i64> = Vec::new();
        phoneme_ids.push(bos_id);
        phoneme_ids.push(pad_id);
        let ghost mut done_count: int = 0;
        for phoneme in it: phonemes.chars()
            invariant
                m == self.phoneme_id_map@,
                id_map_wf(m),
                it.seq() == phonemes@,
                done_count == it.index(),
                phoneme_ids@ == seq![bos_id, pad_id] + encode_body(
                    m,
                    it.seq().take(it.index() as int),
                    pad_id,
                ),
        {
            proof {
                done_count = done_count + 1;
            }
            let ghost done = it.seq().take(it.index() as int);
            proof {
                assert(it.seq().take(it.index() + 1).drop_last() =~= done);
            }
            match self.phoneme_id_map.get(&(phoneme as u32)) {
                Some(ids) => {
                    phoneme_ids.push(ids[0]);
                    phoneme_ids.push(pad_id);
                },
                None => {},
            }
        }
        proof {
            assert(phonemes@.take(done_count) =~= phonemes@);
        }
        phoneme_ids.push(eos_id);
        phoneme_ids
    }
}

} // verus!
