use vstd::prelude::*;

verus! {

/// Payloads are 60-bit unsigned integers.
pub open spec fn fits_u60(x: u64) -> bool {
    x < 0x1000_0000_0000_0000
}

/// `x` as a 60-bit payload: `None` when it does not fit.
pub fn try_u60(x: u64) -> (r: Option<u64>)
    ensures
        r is Some <==> fits_u60(x),
        r matches Some(v) ==> v == x,
{
    if x < 0x1000_0000_0000_0000 {
        Some(x)
    } else {
        None
    }
}

/// What an object holds, with its 60-bit payload.
#[derive(Clone, Copy, Debug, PartialEq, Eq, Structural)]
pub enum MetadataEnum {
    /// The payload is the size of the object's data; the content is ignored
    /// by the collector.
    PlainOldData(u64),
    /// The payload is for the user of the collector, to tell what data the
    /// object holds.
    NotPlainOldData(u64),
    /// An array of references; the payload is its length.
    RefArray(u64),
}

impl MetadataEnum {
    pub open spec fn payload(self) -> u64 {
        match self {
            MetadataEnum::PlainOldData(x) => x,
            MetadataEnum::NotPlainOldData(x) => x,
            MetadataEnum::RefArray(x) => x,
        }
    }
}

/// The metadata word of an object, decoded.
#[derive(Clone, Copy, Debug, PartialEq, Eq, Structural)]
pub struct MetadataExpanded {
    pub is_marked: bool,
    pub write_barrier_activated: bool,
    pub payload: MetadataEnum,
}

impl MetadataExpanded {
    pub open spec fn wf(self) -> bool {
        fits_u60(self.payload.payload())
    }
}

/// Bit 0 of the word: the mark bit.
pub const MARK_BIT: u64 = 0b0001;

/// Bit 1 of the word: the write barrier already touched the object.
pub const WRITE_BARRIER_BIT: u64 = 0b0010;

/// Bits 2 and 3 of the word: the kind of object.
pub const OBJECT_TYPE_MASK: u64 = 0b1100;

/// The word that `encode` gives: the payload above the bottom four bits,
/// the kind's tag, then the write barrier and mark bits.
pub open spec fn encode_spec(data: MetadataExpanded) -> u64 {
    let tagged: u64 = match data.payload {
        MetadataEnum::PlainOldData(len) => len << 4u64,
        MetadataEnum::NotPlainOldData(desc) => (desc << 4u64) | 8u64,
        MetadataEnum::RefArray(len) => (len << 4u64) | 4u64,
    };
    let marked: u64 = if data.is_marked {
        tagged | 1u64
    } else {
        tagged
    };
    if data.write_barrier_activated {
        marked | 2u64
    } else {
        marked
    }
}

/// Whether `decode` accepts the word: its kind bits are not `0b11`.
pub open spec fn decodable(v: u64) -> bool {
    v & 12u64 != 12u64
}

/// The metadata that `decode` reads from a word.
pub open spec fn decode_spec(v: u64) -> MetadataExpanded {
    let payload = v >> 4u64;
    MetadataExpanded {
        is_marked: v & 1u64 != 0u64,
        write_barrier_activated: v & 2u64 != 0u64,
        payload: if v & 12u64 == 0u64 {
            MetadataEnum::PlainOldData(payload)
        } else if v & 12u64 == 4u64 {
            MetadataEnum::RefArray(payload)
        } else {
            MetadataEnum::NotPlainOldData(payload)
        },
    }
}

/// The metadata word at the start of every object. Bottom four bits:
/// mark bit, write barrier bit, and a two-bit object kind; the remaining
/// sixty bits hold the payload.
pub struct Metadata {
    word: u64,
}

/// Reads the 60 bits of `v` that start at bit 4.
fn extract_payload(v: u64) -> (r: u64)
    ensures
        r == v >> 4u64,
        fits_u60(r),
{
    assert((v >> 4u64) < 0x1000_0000_0000_0000u64) by (bit_vector);
    v >> 4u64
}

impl Metadata {
    pub closed spec fn word(self) -> u64 {
        self.word
    }

    /// The stored word is one that decodes.
    pub open spec fn wf(self) -> bool {
        decodable(self.word())
    }

    /// The decoded content.
    pub open spec fn view(self) -> MetadataExpanded {
        decode_spec(self.word())
    }

    fn encode(data: MetadataExpanded) -> (r: u64)
        requires
            data.wf(),
        ensures
            r == encode_spec(data),
            decodable(r),
    {
        let mut v: u64 = match data.payload {
            MetadataEnum::PlainOldData(len) => len << 4u64,
            MetadataEnum::NotPlainOldData(desc) => (desc << 4u64) | 0b1000,
            MetadataEnum::RefArray(len) => (len << 4u64) | 0b100,
        };
        if data.is_marked {
            v = v | MARK_BIT;
        }
        if data.write_barrier_activated {
            v = v | WRITE_BARRIER_BIT;
        }
        proof {
            lemma_encode_decodable(data);
        }
        v
    }

    fn decode(v: u64) -> (r: MetadataExpanded)
        requires
            decodable(v),
        ensures
            r == decode_spec(v),
            r.wf(),
    {
        let kind = v & OBJECT_TYPE_MASK;
        let payload = extract_payload(v);
        let payload = if kind == 0 {
            MetadataEnum::PlainOldData(payload)
        } else if kind == 0b0100 {
            MetadataEnum::RefArray(payload)
        } else {
            MetadataEnum::NotPlainOldData(payload)
        };
        MetadataExpanded {
            is_marked: (v & MARK_BIT) != 0,
            write_barrier_activated: (v & WRITE_BARRIER_BIT) != 0,
            payload,
        }
    }

    pub fn new(data: MetadataExpanded) -> (r: Metadata)
        requires
            data.wf(),
        ensures
            r.wf(),
            r.word() == encode_spec(data),
    {
        Metadata { word: Self::encode(data) }
    }

    pub fn get(&self) -> (r: MetadataExpanded)
        requires
            self.wf(),
        ensures
            r == self@,
            r.wf(),
    {
        Self::decode(self.word)
    }

    /// Replaces the metadata with what `func` makes of it and returns the
    /// metadata as it was before.
    pub fn update<F: Fn(MetadataExpanded) -> MetadataExpanded>(&mut self, func: F) -> (r:
        MetadataExpanded)
        requires
            old(self).wf(),
            forall|m: MetadataExpanded| m.wf() ==> #[trigger] func.requires((m,)),
            forall|m: MetadataExpanded, n: MetadataExpanded|
                m.wf() && #[trigger] func.ensures((m,), n) ==> n.wf(),
        ensures
            final(self).wf(),
            r == old(self)@,
            exists|n: MetadataExpanded|
                #[trigger] func.ensures((old(self)@,), n) && final(self).word() == encode_spec(n),
    {
        let current = Self::decode(self.word);
        let next = func(current);
        self.word = Self::encode(next);
        current
    }

    /// Like `update`, but `func` may refuse by returning `None`: then the
    /// word is left as it is and the current metadata comes back as `Err`.
    pub fn try_update<F: Fn(MetadataExpanded) -> Option<MetadataExpanded>>(&mut self, func: F) -> (r:
        Result<MetadataExpanded, MetadataExpanded>)
        requires
            old(self).wf(),
            forall|m: MetadataExpanded| m.wf() ==> #[trigger] func.requires((m,)),
            forall|m: MetadataExpanded, n: Option<MetadataExpanded>|
                m.wf() && #[trigger] func.ensures((m,), n) && n is Some ==> n->0.wf(),
        ensures
            final(self).wf(),
            r matches Ok(m) ==> m == old(self)@,
            r matches Err(m) ==> m == old(self)@ && final(self).word() == old(self).word(),
            r is Ok ==> exists|n: MetadataExpanded|
                #[trigger] func.ensures((old(self)@,), Some(n)) && final(self).word()
                    == encode_spec(n),
            r is Err ==> func.ensures((old(self)@,), None),
    {
        let current = Self::decode(self.word);
        match func(current) {
            Some(next) => {
                self.word = Self::encode(next);
                Ok(current)
            },
            None => Err(current),
        }
    }
}

/// Every encoded word decodes.
pub proof fn lemma_encode_decodable(data: MetadataExpanded)
    requires
        data.wf(),
    ensures
        decodable(encode_spec(data)),
{
    let p = data.payload.payload();
    let m = data.is_marked;
    let w = data.write_barrier_activated;
    assert(((p << 4u64) & 12u64) == 0u64) by (bit_vector);
    assert(((p << 4u64) | 8u64) & 12u64 == 8u64) by (bit_vector);
    assert(((p << 4u64) | 4u64) & 12u64 == 4u64) by (bit_vector);
    assert(forall|x: u64| x & 12u64 != 12u64 ==> (x | 1u64) & 12u64 == x & 12u64 && (x | 2u64)
        & 12u64 == x & 12u64) by (bit_vector);
}

proof fn lemma_or_zero(x: u64)
    by (bit_vector)
    ensures
        x | 0u64 == x,
{
}

/// The encoded word as the payload, the kind's tag and the two flag bits
/// or'ed together.
proof fn lemma_encode_parts(data: MetadataExpanded, t: u64, mb: u64, wb: u64)
    requires
        t == (match data.payload {
            MetadataEnum::PlainOldData(_) => 0u64,
            MetadataEnum::NotPlainOldData(_) => 8u64,
            MetadataEnum::RefArray(_) => 4u64,
        }),
        mb == (if data.is_marked {
            1u64
        } else {
            0u64
        }),
        wb == (if data.write_barrier_activated {
            2u64
        } else {
            0u64
        }),
    ensures
        encode_spec(data) == (((data.payload.payload() << 4u64) | t) | mb) | wb,
{
    let p = data.payload.payload();
    lemma_or_zero(p << 4u64);
    lemma_or_zero((p << 4u64) | t);
    lemma_or_zero(((p << 4u64) | t) | mb);
}

/// Decoding an encoded word gives back the metadata that was encoded.
pub proof fn lemma_decode_encode(data: MetadataExpanded)
    requires
        data.wf(),
    ensures
        decode_spec(encode_spec(data)) == data,
{
    let p = data.payload.payload();
    let t: u64 = match data.payload {
        MetadataEnum::PlainOldData(_) => 0,
        MetadataEnum::NotPlainOldData(_) => 8,
        MetadataEnum::RefArray(_) => 4,
    };
    let mb: u64 = if data.is_marked {
        1
    } else {
        0
    };
    let wb: u64 = if data.write_barrier_activated {
        2
    } else {
        0
    };
    lemma_encode_parts(data, t, mb, wb);
    let v = encode_spec(data);
    assert({
        &&& v >> 4u64 == p
        &&& (v & 1u64 != 0u64) == (mb == 1)
        &&& (v & 2u64 != 0u64) == (wb == 2)
        &&& v & 12u64 == t
    }) by (bit_vector)
        requires
            p < 0x1000_0000_0000_0000u64,
            t == 0 || t == 4 || t == 8,
            mb == 0 || mb == 1,
            wb == 0 || wb == 2,
            v == (((p << 4u64) | t) | mb) | wb,
    ;
}

} // verus!
