//! A picked file as the shell hands it to the pipeline.
use vstd::prelude::*;
use vstd::string::StringSliceAdditionalSpecFns;

verus! {

/// Whether `b` ends with the bytes `suf`.
pub open spec fn ends_with(b: Seq<u8>, suf: Seq<u8>) -> bool {
    b.len() >= suf.len() && b.subrange(b.len() - suf.len(), b.len() as int) == suf
}

/// The name ends in `.png`, `.jpg` or `.jpeg`.
pub open spec fn supported_name(name: Seq<u8>) -> bool {
    ends_with(name, seq![46u8, 112u8, 110u8, 103u8]) || ends_with(
        name,
        seq![46u8, 106u8, 112u8, 103u8],
    ) || ends_with(name, seq![46u8, 106u8, 112u8, 101u8, 103u8])
}

fn has_suffix(b: &[u8], suf: &[u8]) -> (r: bool)
    ensures
        r == ends_with(b@, suf@),
{
    if b.len() < suf.len() {
        return false;
    }
    let n = b.len();
    let off = n - suf.len();
    let mut i: usize = 0;
    while i < suf.len()
        invariant
            off == b@.len() - suf@.len(),
            suf@.len() <= b@.len(),
            n == b@.len(),
            i <= suf@.len(),
            forall|j: int| 0 <= j < i ==> b@[off + j] == suf@[j],
        decreases suf.len() - i,
    {
        if b[off + i] != suf[i] {
            assert(b@.subrange(off as int, b@.len() as int)[i as int] != suf@[i as int]);
            return false;
        }
        i = i + 1;
    }
    assert(b@.subrange(off as int, b@.len() as int) =~= suf@);
    true
}

/// Whether a file name has one of the extensions the pipeline decodes.
pub fn is_supported_name(name: &str) -> (r: bool)
    ensures
        r == supported_name(name.spec_bytes()),
{
    let b = name.as_bytes();
    let png: [u8; 4] = [46u8, 112u8, 110u8, 103u8];
    let jpg: [u8; 4] = [46u8, 106u8, 112u8, 103u8];
    let jpeg: [u8; 5] = [46u8, 106u8, 112u8, 101u8, 103u8];
    assert(png@ == seq![46u8, 112u8, 110u8, 103u8]);
    assert(jpg@ == seq![46u8, 106u8, 112u8, 103u8]);
    assert(jpeg@ == seq![46u8, 106u8, 112u8, 101u8, 103u8]);
    has_suffix(b, png.as_slice()) || has_suffix(b, jpg.as_slice()) || has_suffix(b, jpeg.as_slice())
}

/// A file the user picked: its name, its bytes, whether one was picked and
/// whether its name marks a supported format.
pub struct FileDN {
    pub name: String,
    pub data: Vec<u8>,
    pub exists: bool,
    pub valid: bool,
}

impl FileDN {
    /// A picked file.
    pub fn new(name: String, data: Vec<u8>, valid: bool) -> (r: Self)
        ensures
            r.name@ == name@,
            r.data@ == data@,
            r.exists,
            r.valid == valid,
    {
        FileDN { name, data, exists: true, valid }
    }
}

impl Default for FileDN {
    /// No file picked yet.
    fn default() -> (r: Self)
        ensures
            r.name@.len() == 0,
            r.data@.len() == 0,
            !r.exists,
            !r.valid,
    {
        FileDN { name: String::new(), data: Vec::new(), exists: false, valid: false }
    }
}

} // verus!
