//! Incremental UTF-16LE decoding of the tool's output pipes.  Reads may
//! split the 2-byte code units anywhere, so each read's bytes are joined
//! with a carry-over byte held back from the previous read; only an
//! even-length prefix is decoded and a trailing odd byte becomes the new
//! carry.  Decoding itself is done by an outside library and replaces
//! malformed sequences instead of failing.

use vstd::prelude::*;
use vstd::slice::slice_to_vec;

verus! {

/// The `i`-th 16-bit little-endian code unit of a byte sequence.
pub open spec fn unit_at(b: Seq<u8>, i: int) -> int {
    b[2 * i] + 256 * b[2 * i + 1]
}

/// A code unit outside the surrogate range: it decodes to the character
/// with the same code point.
pub open spec fn is_bmp_unit(u: int) -> bool {
    !(0xD800 <= u < 0xE000)
}

/// All code units of an (even-length prefix of a) byte sequence are
/// outside the surrogate range.
pub open spec fn bmp_units(b: Seq<u8>) -> bool {
    forall|i: int| 0 <= i < b.len() / 2 ==> is_bmp_unit(#[trigger] unit_at(b, i))
}

/// The text equals the code units of the byte sequence, character by
/// character.
pub open spec fn matches_units(text: Seq<char>, b: Seq<u8>) -> bool {
    text.len() == b.len() / 2 && forall|i: int|
        0 <= i < text.len() ==> (text[i] as int) == #[trigger] unit_at(b, i)
}

/// The text an even-length byte sequence decodes to as UTF-16LE with
/// replacement of malformed sequences: a fixed function of the bytes alone.
pub uninterp spec fn utf16le_text_of(b: Seq<u8>) -> Seq<char>;

/// Relies on encoding_rs::UTF_16LE.decode_without_bom_handling: pairs of
/// bytes are read as little-endian code units; a unit outside the surrogate
/// range is written through as the character with that code point, so a
/// surrogate-free stream decodes unit for unit.
#[verifier::external_body]
fn decode_utf16le(bytes: &[u8]) -> (r: String)
    requires
        bytes@.len() % 2 == 0,
        bytes@.len() < usize::MAX / 4,
    ensures
        r@ == utf16le_text_of(bytes@),
        bmp_units(bytes@) ==> matches_units(r@, bytes@),
{
    let (cow, _) = encoding_rs::UTF_16LE.decode_without_bom_handling(bytes);
    cow.into_owned()
}

/// The even-length prefix of a byte sequence.
pub open spec fn even_prefix(b: Seq<u8>) -> Seq<u8> {
    b.take(b.len() - (b.len() % 2))
}

/// One incremental decoder, owned by one stream's reader.  It remembers
/// every byte fed so far (as ghost history) and holds back a trailing odd
/// byte between reads.
pub struct Utf16Decoder {
    carry: Vec<u8>,
    history: Ghost<Seq<u8>>,
    emitted: Ghost<Seq<char>>,
}

impl Utf16Decoder {
    /// All bytes fed so far.
    pub closed spec fn history(self) -> Seq<u8> {
        self.history@
    }

    /// All text handed out so far, in order.
    pub closed spec fn emitted(self) -> Seq<char> {
        self.emitted@
    }

    /// The held-back byte, if the bytes fed so far are odd in number.
    pub closed spec fn pending(self) -> Seq<u8> {
        self.carry@
    }

    /// Well-formedness: the carry is exactly the odd tail of the history,
    /// and on a surrogate-free history the text handed out so far is
    /// exactly the code units of the history's even prefix — whatever the
    /// chunk boundaries were.
    pub open spec fn wf(self) -> bool {
        &&& self.pending() == self.history().skip(
            self.history().len() - (self.history().len() % 2),
        )
        &&& (bmp_units(even_prefix(self.history())) ==> matches_units(
            self.emitted(),
            even_prefix(self.history()),
        ))
    }

    /// A fresh decoder: nothing fed, nothing held back.
    pub fn new() -> (d: Utf16Decoder)
        ensures
            d.wf(),
            d.history().len() == 0,
            d.emitted().len() == 0,
    {
        let d = Utf16Decoder {
            carry: Vec::new(),
            history: Ghost(Seq::empty()),
            emitted: Ghost(Seq::empty()),
        };
        proof {
            assert(d.pending() =~= d.history().skip(0));
            assert(even_prefix(d.history()) =~= Seq::<u8>::empty());
        }
        d
    }

    /// Feed one read's bytes; returns the text decoded from the carry and
    /// the new bytes, holding back a trailing odd byte.
    pub fn push_bytes(&mut self, chunk: &[u8]) -> (out: String)
        requires
            old(self).wf(),
            chunk@.len() + 2 < usize::MAX / 4,
        ensures
            final(self).wf(),
            final(self).history() == old(self).history() + chunk@,
            final(self).emitted() == old(self).emitted() + out@,
            out@ == utf16le_text_of(even_prefix(old(self).pending() + chunk@)),
    {
        let ghost old_hist: Seq<u8> = self.history@;
        let ghost old_emitted: Seq<char> = self.emitted@;
        let mut combined: Vec<u8> = Vec::new();
        combined.append(&mut self.carry);
        let mut rest: Vec<u8> = slice_to_vec(chunk);
        combined.append(&mut rest);
        assert(combined@ == old(self).pending() + chunk@);

        let n: usize = combined.len();
        if n % 2 == 1 {
            let b: u8 = combined[n - 1];
            combined.truncate(n - 1);
            self.carry.push(b);
            assert(combined@ =~= (old(self).pending() + chunk@).take(n - 1));
        } else {
            assert(combined@ =~= (old(self).pending() + chunk@).take(n as int));
        }
        assert(combined@ == even_prefix(old(self).pending() + chunk@));

        let out: String = decode_utf16le(combined.as_slice());

        proof {
            self.history@ = old_hist + chunk@;
            self.emitted@ = old_emitted + out@;

            let h_new: Seq<u8> = self.history@;
            let seg: Seq<u8> = combined@;
            let e_old: Seq<u8> = even_prefix(old_hist);
            // the new history splits into its old even prefix, the decoded
            // segment, and the new carry
            assert(old_hist == e_old + old(self).pending());
            assert(even_prefix(h_new) =~= e_old + seg);
            assert(self.carry@ =~= h_new.skip(h_new.len() - (h_new.len() % 2)));

            if bmp_units(even_prefix(h_new)) {
                assert forall|i: int| 0 <= i < e_old.len() / 2 implies is_bmp_unit(
                    #[trigger] unit_at(e_old, i),
                ) by {
                    assert(unit_at(even_prefix(h_new), i) == unit_at(e_old, i));
                }
                assert forall|i: int| 0 <= i < seg.len() / 2 implies is_bmp_unit(
                    #[trigger] unit_at(seg, i),
                ) by {
                    assert(unit_at(even_prefix(h_new), i + e_old.len() / 2) == unit_at(seg, i));
                }
                assert(matches_units(old_emitted, e_old));
                assert(matches_units(out@, seg));
                assert forall|i: int| 0 <= i < self.emitted@.len() implies (
                self.emitted@[i] as int) == #[trigger] unit_at(even_prefix(h_new), i) by {
                    if i < old_emitted.len() {
                        assert(self.emitted@[i] == old_emitted[i]);
                        assert(unit_at(even_prefix(h_new), i) == unit_at(e_old, i));
                    } else {
                        assert(self.emitted@[i] == out@[i - old_emitted.len()]);
                        assert(unit_at(even_prefix(h_new), i) == unit_at(
                            seg,
                            i - e_old.len() / 2,
                        ));
                    }
                }
            }
        }
        out
    }
}

/// The chunking property of the decoder: however a surrogate-free
/// even-length byte stream was split into successive reads, once all of it
/// has been fed, nothing is held back and the concatenation of the texts
/// handed out is exactly the stream's code units — the same text that
/// decoding the whole stream at once yields.
pub proof fn lemma_chunking_faithful(d: Utf16Decoder)
    requires
        d.wf(),
        d.history().len() % 2 == 0,
        bmp_units(d.history()),
    ensures
        d.pending().len() == 0,
        matches_units(d.emitted(), d.history()),
{
    assert(even_prefix(d.history()) =~= d.history());
}

} // verus!
