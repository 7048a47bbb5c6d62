use vstd::prelude::*;
use vstd::utf8::encode_utf8;

verus! {

/// A tree-shaped payload value. Numbers are held as 64-bit signed integers.
pub enum JsonValue {
    Null,
    Bool(bool),
    Number(i64),
    Text(String),
    Array(Vec<JsonValue>),
    /// Members in document order; where a key repeats, the first member counts.
    Object(Vec<(String, JsonValue)>),
}

/// The UTF-8 bytes of a string.
pub open spec fn text_bytes(s: String) -> Seq<u8> {
    encode_utf8(s@)
}

/// Borrows the UTF-8 bytes of a string.
pub fn bytes_of(s: &String) -> (r: &[u8])
    ensures
        r@ == text_bytes(*s),
{
    s.as_str().as_bytes()
}

/// The signer's envelope around an attested payload.
pub struct SignedData {
    pub data: JsonValue,
    pub signature: String,
    pub signed_at: String,
    pub signer: String,
}

/// A signed envelope together with the metadata added on processing.
pub struct Document {
    pub signed_data: SignedData,
    pub processed_at: String,
    pub document_text_length: u32,
}

/// The map that a list of (signer, key) pairs denotes: a later pair overrides an earlier one.
pub open spec fn entries_map(e: Seq<(String, String)>) -> Map<Seq<char>, Seq<char>>
    decreases e.len(),
{
    if e.len() == 0 {
        Map::empty()
    } else {
        entries_map(e.drop_last()).insert(e.last().0@, e.last().1@)
    }
}

/// Signer identity to public-key encoding.
#[derive(Debug)]
pub struct PublicKeyDirectory {
    entries: Vec<(String, String)>,
}

impl View for PublicKeyDirectory {
    type V = Map<Seq<char>, Seq<char>>;

    closed spec fn view(&self) -> Map<Seq<char>, Seq<char>> {
        entries_map(self.entries@)
    }
}

proof fn lemma_other_key_kept(e: Seq<(String, String)>, i: int, k: Seq<char>)
    requires
        0 < i <= e.len(),
        e[i - 1].0@ != k,
    ensures
        entries_map(e.subrange(0, i)).contains_key(k) == entries_map(e.subrange(0, i - 1)).contains_key(k),
        entries_map(e.subrange(0, i))[k] == entries_map(e.subrange(0, i - 1))[k],
{
    assert(e.subrange(0, i).drop_last() =~= e.subrange(0, i - 1));
}

impl PublicKeyDirectory {
    /// A directory with no signer.
    pub fn new() -> (r: PublicKeyDirectory)
        ensures
            r@ == Map::<Seq<char>, Seq<char>>::empty(),
    {
        PublicKeyDirectory { entries: Vec::new() }
    }

    /// Registers `key` for `signer`, replacing any key it had.
    pub fn insert(&mut self, signer: String, key: String)
        ensures
            final(self)@ == old(self)@.insert(signer@, key@),
    {
        self.entries.push((signer, key));
        assert(self.entries@.drop_last() =~= old(self).entries@);
    }

    /// Whether `signer` has a registered key.
    pub fn contains_signer(&self, signer: &String) -> (r: bool)
        ensures
            r == self@.contains_key(signer@),
    {
        let mut i: usize = self.entries.len();
        assert(self.entries@.subrange(0, i as int) =~= self.entries@);
        while i > 0
            invariant
                i <= self.entries@.len(),
                entries_map(self.entries@.subrange(0, i as int)).contains_key(signer@)
                    == self@.contains_key(signer@),
            decreases i,
        {
            if self.entries[i - 1].0 == *signer {
                assert(self.entries@.subrange(0, i as int).drop_last() =~= self.entries@.subrange(0, i - 1));
                return true;
            }
            proof {
                lemma_other_key_kept(self.entries@, i as int, signer@);
            }
            i = i - 1;
        }
        false
    }

    /// The key registered for `signer`.
    pub fn key_of(&self, signer: &String) -> (r: Option<&String>)
        ensures
            match r {
                Some(k) => self@.contains_key(signer@) && self@[signer@] == k@,
                None => !self@.contains_key(signer@),
            },
    {
        let mut i: usize = self.entries.len();
        assert(self.entries@.subrange(0, i as int) =~= self.entries@);
        while i > 0
            invariant
                i <= self.entries@.len(),
                entries_map(self.entries@.subrange(0, i as int)).contains_key(signer@)
                    == self@.contains_key(signer@),
                entries_map(self.entries@.subrange(0, i as int))[signer@] == self@[signer@],
            decreases i,
        {
            if self.entries[i - 1].0 == *signer {
                assert(self.entries@.subrange(0, i as int).drop_last() =~= self.entries@.subrange(0, i - 1));
                return Some(&self.entries[i - 1].1);
            }
            proof {
                lemma_other_key_kept(self.entries@, i as int, signer@);
            }
            i = i - 1;
        }
        None
    }
}

} // verus!
