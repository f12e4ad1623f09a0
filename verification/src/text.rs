//! Character and text rules. Text reduces to the sequence rule over its
//! characters: candidates are the sequence candidates reassembled as text.
use vstd::prelude::*;
use vstd::string::*;

use crate::arbitrary::Arbitrary;
use crate::arbitrary::empty_shrinker;
use crate::arbitrary::models_of;
use crate::numbers::draw_unsigned;
use crate::sequence::seq_shrink;
use crate::source::Gen;

verus! {

/// Relies on `String::push`: it appends exactly the one given character.
#[verifier::external_body]
fn push_char(s: &mut String, c: char)
    ensures
        final(s)@ == old(s)@.push(c),
{
    s.push(c);
}

impl Arbitrary for char {
    type M = char;

    open spec fn model(&self) -> char {
        *self
    }

    open spec fn valid(m: char) -> bool {
        true
    }

    /// Generated characters come from the printable range, whatever the size.
    open spec fn fits(m: char, size: nat) -> bool {
        32 <= m as int <= 126
    }

    /// No character-level simplification is attempted.
    open spec fn shrink_model(&self) -> Seq<char> {
        Seq::empty()
    }

    /// A uniform draw from the printable range.
    fn arbitrary<G: Gen>(g: &mut G) -> (r: char) {
        let v = draw_unsigned(g, 95);
        let b: u8 = 32 + (v as u8);
        b as char
    }

    fn shrink(&self) -> (r: Vec<char>) {
        empty_shrinker()
    }

    fn dup(&self) -> char {
        *self
    }
}

/// The characters of a text, in order.
fn to_char_vec(s: &String) -> (r: Vec<char>)
    ensures
        r@ == s@,
{
    let st: &str = s.as_str();
    let n = st.unicode_len();
    let mut r: Vec<char> = Vec::new();
    let mut i: usize = 0;
    while i < n
        invariant
            i <= n,
            n == st@.len(),
            st@ == s@,
            r@.len() == i,
            forall|t: int| 0 <= t < i ==> #[trigger] r@[t] == s@[t],
        decreases n - i,
    {
        r.push(st.get_char(i));
        i += 1;
    }
    proof {
        assert(r@ =~= s@);
    }
    r
}

/// Text assembled from the given characters, in order.
fn from_char_vec(cs: &Vec<char>) -> (r: String)
    ensures
        r@ == cs@,
{
    let mut r = String::new();
    let mut i: usize = 0;
    while i < cs.len()
        invariant
            i <= cs@.len(),
            r@ == cs@.take(i as int),
        decreases cs@.len() - i,
    {
        push_char(&mut r, cs[i]);
        i += 1;
        proof {
            assert(r@ =~= cs@.take(i as int));
        }
    }
    proof {
        assert(r@ =~= cs@);
    }
    r
}

impl Arbitrary for String {
    type M = Seq<char>;

    open spec fn model(&self) -> Seq<char> {
        self@
    }

    open spec fn valid(m: Seq<char>) -> bool {
        true
    }

    open spec fn fits(m: Seq<char>, size: nat) -> bool {
        &&& if size == 0 {
            m.len() == 0
        } else {
            m.len() < size
        }
        &&& forall|i: int|
            0 <= i < m.len() ==> <char as Arbitrary>::fits(#[trigger] m[i], size)
    }

    /// The sequence rule applied to the text's characters.
    open spec fn shrink_model(&self) -> Seq<Seq<char>> {
        seq_shrink::<char>(self@)
    }

    /// A length drawn below the size bound, then that many printable
    /// characters.
    fn arbitrary<G: Gen>(g: &mut G) -> (r: String) {
        let s = g.size();
        let len = draw_unsigned(g, s as u64) as usize;
        let mut out = String::new();
        let mut i: usize = 0;
        while i < len
            invariant
                i <= len,
                out@.len() == i,
                g.spec_size() == old(g).spec_size(),
                forall|t: int|
                    0 <= t < i ==> <char as Arbitrary>::fits(
                        #[trigger] out@[t],
                        old(g).spec_size() as nat,
                    ),
            decreases len - i,
        {
            let c = <char as Arbitrary>::arbitrary(g);
            push_char(&mut out, c);
            i += 1;
        }
        out
    }

    fn shrink(&self) -> (r: Vec<String>) {
        let cs = to_char_vec(self);
        let cands = cs.shrink();
        let mut out: Vec<String> = Vec::new();
        let mut j: usize = 0;
        while j < cands.len()
            invariant
                j <= cands@.len(),
                out@.len() == j,
                cs@ == self@,
                cands@.len() == seq_shrink::<char>(self@).len(),
                forall|t: int|
                    0 <= t < cands@.len() ==> (#[trigger] cands@[t]).model() == seq_shrink::<char>(
                        self@,
                    )[t],
                forall|t: int|
                    0 <= t < out@.len() ==> (#[trigger] out@[t]).model() == self.shrink_model()[t],
            decreases cands@.len() - j,
        {
            let ghost j0 = j as int;
            let text = from_char_vec(&cands[j]);
            proof {
                assert(text@ =~= models_of(cands@[j0]@));
            }
            out.push(text);
            j += 1;
        }
        out
    }

    fn dup(&self) -> (r: String) {
        self.clone()
    }
}

} // verus!
