//! Codons, and the extraction of codons from a packed buffer.
use vstd::prelude::*;

use crate::buffer::{byte_or_zero, SIMDBuffer};
use crate::genetic_code::GeneticCode;
use crate::nucleotide::{
    is_symbol_name, lemma_name_code_round_trip, symbol_code, symbol_name,
    unwrap_nucleotide_value_get, Nucleotide,
};
use crate::BiomeError;

verus! {

/// The code held in two-bit slot `slot` (0 to 3, lowest bits first) of a
/// byte.
pub open spec fn code_in_byte(b: u8, slot: int) -> u8 {
    if slot == 0 {
        b & 3
    } else if slot == 1 {
        (b >> 2u8) & 3
    } else if slot == 2 {
        (b >> 4u8) & 3
    } else {
        (b >> 6u8) & 3
    }
}

/// The code of symbol `i` of a packed buffer: slot `i % 4` of byte `i / 4`.
pub open spec fn symbol_at(bytes: Seq<u8>, i: int) -> u8 {
    code_in_byte(bytes[i / 4], i % 4)
}

/// Whether every character is a symbol name.
pub open spec fn all_symbol_names(s: Seq<char>) -> bool {
    forall|i: int| 0 <= i < s.len() ==> is_symbol_name(#[trigger] s[i])
}

/// The codes of a sequence of symbol names.
pub open spec fn codes_of(s: Seq<char>) -> Seq<u8> {
    s.map_values(|c: char| symbol_code(c))
}

/// The byte that holds the four codes from `start` on, the first in the
/// lowest bits; codes past the end count as zero.
pub open spec fn packed_at(codes: Seq<u8>, start: int) -> u8 {
    byte_or_zero(codes, start) | (byte_or_zero(codes, start + 1) << 2u8) | (byte_or_zero(
        codes,
        start + 2,
    ) << 4u8) | (byte_or_zero(codes, start + 3) << 6u8)
}

/// A sequence of codes packed four to a byte.
pub open spec fn pack(codes: Seq<u8>) -> Seq<u8> {
    Seq::new((codes.len() + 3) as nat / 4, |j: int| packed_at(codes, 4 * j))
}

/// The three codes of codon `j` of a packed buffer.
pub open spec fn triplet_at(bytes: Seq<u8>, j: int) -> Seq<u8> {
    seq![symbol_at(bytes, 3 * j), symbol_at(bytes, 3 * j + 1), symbol_at(bytes, 3 * j + 2)]
}

/// The codons of the first `count` symbols of a packed buffer, in order.
pub open spec fn triplets_of(bytes: Seq<u8>, count: int) -> Seq<Seq<u8>> {
    Seq::new((count / 3) as nat, |j: int| triplet_at(bytes, j))
}

/// Whether `count` symbols fill whole codons and fit in `len` bytes.
pub open spec fn valid_count(len: int, count: int) -> bool {
    count % 3 == 0 && count <= 4 * len
}

/// The names of the three codes of a codon.
pub open spec fn codon_text(t: Seq<u8>) -> Seq<char> {
    seq![symbol_name(t[0]), symbol_name(t[1]), symbol_name(t[2])]
}

/// The names of each codon, the codons separated by a comma and a space.
pub open spec fn joined_text(ts: Seq<Seq<u8>>) -> Seq<char>
    decreases ts.len(),
{
    if ts.len() == 0 {
        Seq::empty()
    } else if ts.len() == 1 {
        codon_text(ts[0])
    } else {
        joined_text(ts.drop_last()) + seq![',', ' '] + codon_text(ts.last())
    }
}

/// A list of codons as text: their names, comma-separated, in brackets.
pub open spec fn list_text(ts: Seq<Seq<u8>>) -> Seq<char> {
    seq!['['] + joined_text(ts) + seq![']']
}

/// Four codes below 4, packed into one byte, come back out of their slots.
proof fn lemma_unpack_four(c0: u8, c1: u8, c2: u8, c3: u8)
    requires
        c0 < 4,
        c1 < 4,
        c2 < 4,
        c3 < 4,
    ensures
        ({
            let b = c0 | (c1 << 2u8) | (c2 << 4u8) | (c3 << 6u8);
            &&& b & 3 == c0
            &&& (b >> 2u8) & 3 == c1
            &&& (b >> 4u8) & 3 == c2
            &&& (b >> 6u8) & 3 == c3
        }),
{
    assert({
        let b = c0 | (c1 << 2u8) | (c2 << 4u8) | (c3 << 6u8);
        &&& b & 3 == c0
        &&& (b >> 2u8) & 3 == c1
        &&& (b >> 4u8) & 3 == c2
        &&& (b >> 6u8) & 3 == c3
    }) by (bit_vector)
        requires
            c0 < 4,
            c1 < 4,
            c2 < 4,
            c3 < 4,
    ;
}

/// Each symbol of a sequence of codes below 4 is read back from its packed
/// form.
pub proof fn lemma_symbol_at_pack(codes: Seq<u8>, i: int)
    requires
        0 <= i < codes.len(),
        forall|k: int| 0 <= k < codes.len() ==> #[trigger] codes[k] < 4,
    ensures
        symbol_at(pack(codes), i) == codes[i],
{
    let j = i / 4;
    let s = 4 * j;
    assert(byte_or_zero(codes, s) < 4);
    assert(byte_or_zero(codes, s + 1) < 4);
    assert(byte_or_zero(codes, s + 2) < 4);
    assert(byte_or_zero(codes, s + 3) < 4);
    lemma_unpack_four(
        byte_or_zero(codes, s),
        byte_or_zero(codes, s + 1),
        byte_or_zero(codes, s + 2),
        byte_or_zero(codes, s + 3),
    );
    assert(pack(codes)[j] == packed_at(codes, s));
}

/// Packing a codon-aligned sequence of symbol names and extracting its
/// codons gives back the names, in order.
pub proof fn lemma_triplets_round_trip(s: Seq<char>)
    requires
        s.len() % 3 == 0,
        all_symbol_names(s),
    ensures
        valid_count(pack(codes_of(s)).len() as int, s.len() as int),
        triplets_of(pack(codes_of(s)), s.len() as int).len() * 3 == s.len(),
        forall|j: int, k: int|
            0 <= j < s.len() / 3 && 0 <= k < 3 ==> symbol_name(
                #[trigger] triplets_of(pack(codes_of(s)), s.len() as int)[j][k],
            ) == s[3 * j + k],
{
    let codes = codes_of(s);
    assert forall|k: int| 0 <= k < codes.len() implies #[trigger] codes[k] < 4 by {
        lemma_name_code_round_trip(s[k]);
    }
    assert forall|j: int, k: int| 0 <= j < s.len() / 3 && 0 <= k < 3 implies symbol_name(
        #[trigger] triplets_of(pack(codes), s.len() as int)[j][k],
    ) == s[3 * j + k] by {
        let i = 3 * j + k;
        lemma_symbol_at_pack(codes, i);
        lemma_name_code_round_trip(s[i]);
        assert(triplets_of(pack(codes), s.len() as int)[j] == triplet_at(pack(codes), j));
    }
}

/// The four two-bit slots of a byte.
enum Position {
    FIRST,
    SECOND,
    THIRD,
    FOURTH,
}

impl Position {
    spec fn slot(self) -> int {
        match self {
            Position::FIRST => 0,
            Position::SECOND => 1,
            Position::THIRD => 2,
            Position::FOURTH => 3,
        }
    }

    /// The slot of symbol `nucleotide_position` within its byte.
    fn get(nucleotide_position: usize) -> (r: Position)
        ensures
            r.slot() == nucleotide_position % 4,
    {
        let moduloed_position = nucleotide_position % 4;
        match moduloed_position {
            0 => Position::FIRST,
            1 => Position::SECOND,
            2 => Position::THIRD,
            _ => Position::FOURTH,
        }
    }
}

/// The code in one slot of a byte.
fn get_nucleotide_value(nucleotides: u8, position: Position) -> (r: u8)
    ensures
        r == code_in_byte(nucleotides, position.slot()),
        r < 4,
{
    proof {
        assert(nucleotides & 3 < 4) by (bit_vector);
        assert((nucleotides >> 2u8) & 3 < 4) by (bit_vector);
        assert((nucleotides >> 4u8) & 3 < 4) by (bit_vector);
        assert((nucleotides >> 6u8) & 3 < 4) by (bit_vector);
    }
    match position {
        Position::FIRST => nucleotides & 0x3,
        Position::SECOND => (nucleotides >> 2u8) & 0x3,
        Position::THIRD => (nucleotides >> 4u8) & 0x3,
        Position::FOURTH => (nucleotides >> 6u8) & 0x3,
    }
}

/// Masking a code below 4 to its two low bits leaves it as it is.
proof fn lemma_mask_code(v: u8)
    requires
        v < 4,
    ensures
        v & 3 == v,
{
    assert(v & 3 == v) by (bit_vector)
        requires
            v < 4,
    ;
}

/// The symbol at `index` of a packed buffer: slot `index % 4` of byte
/// `index / 4`.
fn nucleotide_at(bytes: &[u8], index: usize) -> (r: Nucleotide)
    requires
        index / 4 < bytes@.len(),
    ensures
        r.value == symbol_at(bytes@, index as int),
        r.value < 4,
{
    Nucleotide { value: get_nucleotide_value(bytes[index / 4], Position::get(index)) }
}

/// The name of a code below 4.
fn symbol_char(code: u8) -> (r: char)
    requires
        code < 4,
    ensures
        r == symbol_name(code),
{
    if code == 0 {
        'U'
    } else if code == 1 {
        'C'
    } else if code == 2 {
        'A'
    } else {
        'G'
    }
}

/// Three symbols, packed into the slots 0, 1 and 2 of a byte; the top two
/// bits are zero.
pub struct Codon {
    nucleotides: u8,
}

impl View for Codon {
    type V = Seq<u8>;

    /// The three codes, in order.
    closed spec fn view(&self) -> Seq<u8> {
        seq![
            code_in_byte(self.nucleotides, 0),
            code_in_byte(self.nucleotides, 1),
            code_in_byte(self.nucleotides, 2),
        ]
    }
}

/// The low two bits of three bytes, packed into one byte, come back out of
/// their slots, and the top two bits stay clear.
proof fn lemma_pack_three(a: u8, b: u8, c: u8)
    ensures
        ({
            let p = (a & 3) | ((b & 3) << 2u8) | ((c & 3) << 4u8);
            &&& p & 3 == a & 3
            &&& (p >> 2u8) & 3 == b & 3
            &&& (p >> 4u8) & 3 == c & 3
            &&& p < 64
        }),
{
    assert({
        let p = (a & 3) | ((b & 3) << 2u8) | ((c & 3) << 4u8);
        &&& p & 3 == a & 3
        &&& (p >> 2u8) & 3 == b & 3
        &&& (p >> 4u8) & 3 == c & 3
        &&& p < 64
    }) by (bit_vector);
}

impl Codon {
    /// Whether the top two bits of the byte are clear.
    pub closed spec fn wf(&self) -> bool {
        self.nucleotides < 64
    }

    /// The codon of three symbols; only their low two bits are kept.
    pub fn from_nucleotides(a: &Nucleotide, b: &Nucleotide, c: &Nucleotide) -> (r: Codon)
        ensures
            r.wf(),
            r@ == seq![a.value & 3, b.value & 3, c.value & 3],
    {
        Codon::from(a.value, b.value, c.value)
    }

    /// The codon of an array of three symbols.
    pub fn from_nucleotide_array(nucleotides: &[Nucleotide; 3]) -> (r: Codon)
        ensures
            r.wf(),
            r@ == seq![
                nucleotides@[0].value & 3,
                nucleotides@[1].value & 3,
                nucleotides@[2].value & 3,
            ],
    {
        Codon::from_nucleotides(&nucleotides[0], &nucleotides[1], &nucleotides[2])
    }

    /// The codon of three codes; only their low two bits are kept.
    pub fn from(a: u8, b: u8, c: u8) -> (r: Codon)
        ensures
            r.wf(),
            r@ == seq![a & 3, b & 3, c & 3],
    {
        proof {
            lemma_pack_three(a, b, c);
        }
        Codon { nucleotides: (a & 3) | ((b & 3) << 2u8) | ((c & 3) << 4u8) }
    }

    /// The three symbols of the codon, in order.
    pub fn to_nucleotides(&self) -> (r: [Nucleotide; 3])
        ensures
            r@.len() == 3,
            r@[0].value == self@[0],
            r@[1].value == self@[1],
            r@[2].value == self@[2],
            r@[0].value < 4 && r@[1].value < 4 && r@[2].value < 4,
    {
        [
            Nucleotide { value: get_nucleotide_value(self.nucleotides, Position::FIRST) },
            Nucleotide { value: get_nucleotide_value(self.nucleotides, Position::SECOND) },
            Nucleotide { value: get_nucleotide_value(self.nucleotides, Position::THIRD) },
        ]
    }

    /// The names of the three symbols, in order.
    pub fn names(&self) -> (r: [char; 3])
        ensures
            r@ == codon_text(self@),
    {
        let n = self.to_nucleotides();
        let r = [symbol_char(n[0].value), symbol_char(n[1].value), symbol_char(n[2].value)];
        assert(r@ =~= codon_text(self@));
        r
    }
}

/// The byte that packs the up to four symbols from `start` on (zero where
/// none is left), or `UnknownSymbol` if one of them is no symbol name.
fn populate_value(input: &[char], start: usize) -> (r: Result<u8, BiomeError>)
    requires
        start <= input@.len(),
    ensures
        start == input@.len() ==> r == Ok::<u8, BiomeError>(0),
        ({
            let end = if start + 4 <= input@.len() {
                start + 4
            } else {
                input@.len() as int
            };
            &&& all_symbol_names(input@.subrange(start as int, end)) ==> r == Ok::<
                u8,
                BiomeError,
            >(packed_at(codes_of(input@), start as int))
            &&& !all_symbol_names(input@.subrange(start as int, end)) ==> r == Err::<
                u8,
                BiomeError,
            >(BiomeError::UnknownSymbol)
        }),
{
    let ghost end = if start + 4 <= input@.len() {
        start + 4
    } else {
        input@.len() as int
    };
    let ghost part = input@.subrange(start as int, end);
    let ghost codes = codes_of(input@);
    let mut value: u8 = 0;
    let mut k: usize = 0;
    while k < 4
        invariant
            k <= 4,
            start <= input@.len(),
            end == (if start + 4 <= input@.len() {
                start + 4
            } else {
                input@.len() as int
            }),
            part == input@.subrange(start as int, end),
            codes == codes_of(input@),
            forall|m: int| 0 <= m < k && start + m < end ==> is_symbol_name(#[trigger] part[m]),
            value == (if k == 0 {
                0u8
            } else if k == 1 {
                byte_or_zero(codes, start as int)
            } else if k == 2 {
                byte_or_zero(codes, start as int) | (byte_or_zero(codes, start + 1) << 2u8)
            } else if k == 3 {
                byte_or_zero(codes, start as int) | (byte_or_zero(codes, start + 1) << 2u8) | (
                byte_or_zero(codes, start + 2) << 4u8)
            } else {
                packed_at(codes, start as int)
            }),
        decreases 4 - k,
    {
        let code: u8 = if k < input.len() - start {
            assert(part[k as int] == input@[start + k]);
            match unwrap_nucleotide_value_get(input[start + k]) {
                Ok(code) => code,
                Err(e) => {
                    return Err(e);
                },
            }
        } else {
            0
        };
        assert(code == byte_or_zero(codes, start + k));
        value = if k == 0 {
            code
        } else if k == 1 {
            value | (code << 2u8)
        } else if k == 2 {
            value | (code << 4u8)
        } else {
            value | (code << 6u8)
        };
        k += 1;
    }
    assert(all_symbol_names(part));
    proof {
        if start == input@.len() {
            let z: u8 = 0;
            assert(z | (z << 2u8) | (z << 4u8) | (z << 6u8) == 0) by (bit_vector)
                requires
                    z == 0,
            ;
        }
    }
    Ok(value)
}

/// A packed buffer with the number of symbols it holds, and the translation
/// table that its codons are meant for.
pub struct CodonBuffer<T: GeneticCode> {
    buffer: SIMDBuffer,
    count: usize,
    protein_translator: T,
}

impl<T: GeneticCode> CodonBuffer<T> {
    /// The packed bytes.
    pub closed spec fn packed(&self) -> Seq<u8> {
        self.buffer@
    }

    /// The declared number of symbols.
    pub closed spec fn symbol_count(&self) -> nat {
        self.count as nat
    }

    /// A buffer that declares `count` symbols of `buffer`.
    pub fn new(buffer: SIMDBuffer, count: usize) -> (r: Self)
        ensures
            r.packed() == buffer@,
            r.symbol_count() == count,
    {
        CodonBuffer { buffer: buffer, count: count, protein_translator: T::new() }
    }

    /// The codons of the declared symbols, in order; `InvalidSymbolCount`
    /// where the count is no multiple of 3 or exceeds what the bytes hold.
    pub fn to_codons(&self) -> (r: Result<Vec<Codon>, BiomeError>)
        ensures
            valid_count(self.packed().len() as int, self.symbol_count() as int) ==> r.is_ok()
                && r->Ok_0@.map_values(|c: Codon| c@) == triplets_of(
                self.packed(),
                self.symbol_count() as int,
            ),
            r.is_ok() ==> forall|k: int| 0 <= k < r->Ok_0@.len() ==> (#[trigger] r->Ok_0@[k]).wf(),
            !valid_count(self.packed().len() as int, self.symbol_count() as int) ==> r == Err::<
                Vec<Codon>,
                BiomeError,
            >(BiomeError::InvalidSymbolCount),
    {
        let buffer_view = self.buffer.as_slice();
        let count = self.count;
        let len = buffer_view.len();
        if count % 3 != 0 || count / 4 > len || (count / 4 == len && count % 4 != 0) {
            return Err(BiomeError::InvalidSymbolCount);
        }
        let n = count / 3;
        let mut codons: Vec<Codon> = Vec::with_capacity(n);
        let mut j: usize = 0;
        while j < n
            invariant
                n == count / 3,
                count == self.symbol_count() as int,
                count % 3 == 0,
                count <= 4 * buffer_view@.len(),
                buffer_view@ == self.packed(),
                j <= n,
                codons@.len() == j,
                forall|m: int|
                    0 <= m < j ==> (#[trigger] codons@[m])@ == triplet_at(self.packed(), m),
                forall|m: int| 0 <= m < j ==> (#[trigger] codons@[m]).wf(),
            decreases n - j,
        {
            let p = 3 * j;
            let nucleotides = [
                nucleotide_at(buffer_view, p),
                nucleotide_at(buffer_view, p + 1),
                nucleotide_at(buffer_view, p + 2),
            ];
            let codon = Codon::from_nucleotide_array(&nucleotides);
            proof {
                lemma_mask_code(nucleotides[0].value);
                lemma_mask_code(nucleotides[1].value);
                lemma_mask_code(nucleotides[2].value);
                assert(codon@ =~= triplet_at(self.packed(), j as int));
            }
            codons.push(codon);
            j += 1;
        }
        assert(codons@.map_values(|c: Codon| c@) =~= triplets_of(
            self.packed(),
            self.symbol_count() as int,
        ));
        Ok(codons)
    }

    /// The declared codons as text, such as `[AUG, GAC]`;
    /// `InvalidSymbolCount` where `to_codons` fails.
    pub fn to_text(&self) -> (r: Result<Vec<char>, BiomeError>)
        ensures
            valid_count(self.packed().len() as int, self.symbol_count() as int) ==> r.is_ok() && r->Ok_0@
                == list_text(triplets_of(self.packed(), self.symbol_count() as int)),
            !valid_count(self.packed().len() as int, self.symbol_count() as int) ==> r == Err::<
                Vec<char>,
                BiomeError,
            >(BiomeError::InvalidSymbolCount),
    {
        let codons = match self.to_codons() {
            Ok(codons) => codons,
            Err(e) => {
                return Err(e);
            },
        };
        let ghost ts = codons@.map_values(|c: Codon| c@);
        let mut out: Vec<char> = Vec::new();
        out.push('[');
        let mut j: usize = 0;
        while j < codons.len()
            invariant
                ts == codons@.map_values(|c: Codon| c@),
                j <= codons@.len(),
                out@ == seq!['['] + joined_text(ts.take(j as int)),
            decreases codons@.len() - j,
        {
            let names = codons[j].names();
            if j > 0 {
                out.push(',');
                out.push(' ');
            }
            out.push(names[0]);
            out.push(names[1]);
            out.push(names[2]);
            proof {
                let next = ts.take(j + 1);
                assert(next.drop_last() =~= ts.take(j as int));
                assert(next.last() == ts[j as int]);
                assert(out@ =~= seq!['['] + joined_text(next));
            }
            j += 1;
        }
        assert(ts.take(j as int) =~= ts);
        out.push(']');
        assert(out@ =~= list_text(ts));
        Ok(out)
    }
    /// Packs a sequence of symbol names four to a byte, and declares their
    /// number: `InvalidSymbolCount` where that number is no multiple of 3,
    /// else `UnknownSymbol` where a character is no symbol name.
    pub fn from_chars(input: &[char]) -> (r: Result<CodonBuffer<T>, BiomeError>)
        ensures
            input@.len() % 3 != 0 ==> r == Err::<CodonBuffer<T>, BiomeError>(
                BiomeError::InvalidSymbolCount,
            ),
            input@.len() % 3 == 0 && !all_symbol_names(input@) ==> r == Err::<
                CodonBuffer<T>,
                BiomeError,
            >(BiomeError::UnknownSymbol),
            input@.len() % 3 == 0 && all_symbol_names(input@) ==> r.is_ok() && r->Ok_0.packed()
                == pack(codes_of(input@)) && r->Ok_0.symbol_count() == input@.len(),
    {
        let len = input.len();
        if len % 3 != 0 {
            return Err(BiomeError::InvalidSymbolCount);
        }
        let groups: usize = len / 4 + if len % 4 != 0 {
            1
        } else {
            0
        };
        let ghost packed = pack(codes_of(input@));
        let mut storage_buffer: Vec<u8> = Vec::with_capacity(groups);
        let mut g: usize = 0;
        while g < groups
            invariant
                len == input@.len(),
                len % 3 == 0,
                groups == len / 4 + if len % 4 != 0 {
                    1int
                } else {
                    0int
                },
                packed == pack(codes_of(input@)),
                packed.len() == groups,
                g <= groups,
                storage_buffer@ == packed.subrange(0, g as int),
                forall|i: int| 0 <= i < 4 * g && i < len ==> is_symbol_name(#[trigger] input@[i]),
            decreases groups - g,
        {
            let start = 4 * g;
            let ghost end = if start + 4 <= len {
                start + 4
            } else {
                len as int
            };
            match populate_value(input, start) {
                Ok(v) => {
                    proof {
                        assert forall|i: int|
                            0 <= i < 4 * (g + 1) && i < len implies is_symbol_name(
                            #[trigger] input@[i],
                        ) by {
                            if i >= start {
                                assert(input@[i] == input@.subrange(start as int, end)[i - start]);
                            }
                        }
                    }
                    storage_buffer.push(v);
                    assert(storage_buffer@ =~= packed.subrange(0, g + 1));
                },
                Err(e) => {
                    proof {
                        if all_symbol_names(input@) {
                            assert(all_symbol_names(input@.subrange(start as int, end)));
                        }
                    }
                    return Err(e);
                },
            }
            g += 1;
        }
        assert(storage_buffer@ =~= packed);
        Ok(CodonBuffer::new(SIMDBuffer { buffer: storage_buffer }, len))
    }
}

} // verus!
