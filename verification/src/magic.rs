use vstd::prelude::*;

verus! {

/// One magic-byte occurrence: the literal bytes found at `offset` within the
/// containing slice, captured from the parsed input.
#[derive(Debug)]
pub struct MagicBytesMeta {
    /// Byte offset from the start of the containing slice.
    pub offset: usize,
    /// Number of signature bytes; always equal to `bytes.len()`.
    pub length: usize,
    /// The literal signature bytes as they stand in the input.
    pub bytes: Vec<u8>,
}

/// Mathematical shape of a signature record: where it begins and its bytes.
pub ghost struct SigSpec {
    pub offset: int,
    pub bytes: Seq<u8>,
}

impl View for MagicBytesMeta {
    type V = SigSpec;

    open spec fn view(&self) -> SigSpec {
        SigSpec { offset: self.offset as int, bytes: self.bytes@ }
    }
}

impl MagicBytesMeta {
    /// The stored length always mirrors the stored bytes.
    pub open spec fn wf(&self) -> bool {
        self.length == self.bytes@.len()
    }

    pub fn new(offset: usize, bytes: Vec<u8>) -> (r: MagicBytesMeta)
        ensures
            r.wf(),
            r@ == (SigSpec { offset: offset as int, bytes: bytes@ }),
    {
        let length = bytes.len();
        MagicBytesMeta { offset, length, bytes }
    }

    /// A fresh record with the same offset and the same bytes.
    pub fn duplicate(&self) -> (r: MagicBytesMeta)
        ensures
            r@ == self@,
            r.wf(),
    {
        let bytes = self.bytes.clone();
        assert(bytes@ == self.bytes@);
        MagicBytesMeta::new(self.offset, bytes)
    }
}

} // verus!
