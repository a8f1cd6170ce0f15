use vstd::prelude::*;

verus! {

/// `suffix` is the tail of `name`.
pub open spec fn spec_has_suffix(name: Seq<u8>, suffix: Seq<u8>) -> bool {
    &&& name.len() >= suffix.len()
    &&& name.subrange(name.len() - suffix.len(), name.len() as int) == suffix
}

/// The filename (as bytes) ends in `.csv`: the artifact carries the
/// tabular record schema.
pub open spec fn spec_is_csv_name(name: Seq<u8>) -> bool {
    spec_has_suffix(name, seq![46u8, 99u8, 115u8, 118u8])
}

/// The filename (as bytes) ends in `.txt`: the artifact carries a flat
/// numeric vector.
pub open spec fn spec_is_txt_name(name: Seq<u8>) -> bool {
    spec_has_suffix(name, seq![46u8, 116u8, 120u8, 116u8])
}

/// Whether `suffix` is the tail of `name`, byte for byte.
pub fn has_suffix(name: &[u8], suffix: &[u8]) -> (r: bool)
    ensures
        r == spec_has_suffix(name@, suffix@),
{
    if name.len() < suffix.len() {
        assert(!spec_has_suffix(name@, suffix@));
        return false;
    }
    let start: usize = name.len() - suffix.len();
    let mut i: usize = 0;
    while i < suffix.len()
        invariant
            start == name@.len() - suffix@.len(),
            start + suffix@.len() <= usize::MAX,
            i <= suffix@.len(),
            forall|j: int| 0 <= j < i ==> name@[start + j] == suffix@[j],
        decreases suffix@.len() - i,
    {
        if name[start + i] != suffix[i] {
            assert(name@.subrange(start as int, name@.len() as int)[i as int] != suffix@[i as int]);
            return false;
        }
        i += 1;
    }
    assert(name@.subrange(start as int, name@.len() as int) =~= suffix@);
    true
}

/// Whether the filename ends in `.csv`.
pub fn is_csv_name(name: &[u8]) -> (r: bool)
    ensures
        r == spec_is_csv_name(name@),
{
    let suffix: [u8; 4] = [46u8, 99u8, 115u8, 118u8];
    let r = has_suffix(name, suffix.as_slice());
    assert(suffix@ =~= seq![46u8, 99u8, 115u8, 118u8]);
    r
}

/// Whether the filename ends in `.txt`.
pub fn is_txt_name(name: &[u8]) -> (r: bool)
    ensures
        r == spec_is_txt_name(name@),
{
    let suffix: [u8; 4] = [46u8, 116u8, 120u8, 116u8];
    let r = has_suffix(name, suffix.as_slice());
    assert(suffix@ =~= seq![46u8, 116u8, 120u8, 116u8]);
    r
}

} // verus!
