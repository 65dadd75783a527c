//! Byte-level helpers: comparing byte strings, UTF-8 text and the attribute
//! list of an oracle product account.
use vstd::prelude::*;
use vstd::utf8::*;

verus! {

/// Whether two byte strings are equal.
pub fn bytes_equal(a: &[u8], b: &[u8]) -> (r: bool)
    ensures
        r == (a@ == b@),
{
    if a.len() != b.len() {
        return false;
    }
    let n = a.len();
    for i in 0..n
        invariant
            n == a@.len(),
            n == b@.len(),
            forall|j: int| 0 <= j < i ==> a@[j] == b@[j],
    {
        if a[i] != b[i] {
            return false;
        }
    }
    assert(a@ =~= b@);
    true
}

/// `std::str::from_utf8`: the bytes as text, if they are valid UTF-8.
#[verifier::external_body]
pub(crate) fn str_from_utf8(bytes: &[u8]) -> (r: Option<&str>)
    ensures
        r is Some <==> valid_utf8(bytes@),
        r matches Some(s) ==> s@ == decode_utf8(bytes@),
{
    std::str::from_utf8(bytes).ok()
}

/// The value of the attribute named `attribute` in an attribute list,
/// searching from byte `idx` on.
///
/// The list is a sequence of entries, each a name and then a value, both
/// written as one length byte followed by that many bytes. A zero length
/// byte in place of a name is skipped (the list is padded with zeros).
/// The search stops at the first entry with that name; it finds nothing
/// where the list ends, or where an entry runs past the end of the data.
pub open spec fn attribute_search(data: Seq<u8>, attribute: Seq<u8>, idx: int) -> Option<Seq<u8>>
    decreases data.len() - idx,
{
    if idx < 0 || idx >= data.len() {
        None
    } else {
        let key_len = data[idx] as int;
        let k = idx + 1;
        if key_len == 0 {
            attribute_search(data, attribute, k)
        } else if k + key_len >= data.len() {
            None
        } else {
            let val_len = data[k + key_len] as int;
            let v = k + key_len + 1;
            if v + val_len > data.len() {
                None
            } else if data.subrange(k, k + key_len) == attribute {
                Some(data.subrange(v, v + val_len))
            } else {
                attribute_search(data, attribute, v + val_len)
            }
        }
    }
}

/// The value of the attribute named `attribute` in the attribute list
/// `data` of an oracle product account.
pub fn read_pyth_product_attribute<'d>(data: &'d [u8], attribute: &[u8]) -> (r: Option<&'d [u8]>)
    ensures
        match attribute_search(data@, attribute@, 0) {
            None => r is None,
            Some(v) => r matches Some(s) && s@ == v,
        },
{
    let n = data.len();
    let mut idx: usize = 0;
    while idx < n
        invariant
            n == data@.len(),
            idx <= n,
            attribute_search(data@, attribute@, 0) == attribute_search(data@, attribute@, idx as int),
        decreases n - idx,
    {
        let key_len = data[idx] as usize;
        let k = idx + 1;
        if key_len == 0 {
            idx = k;
            continue;
        }
        if key_len >= n - k {
            return None;
        }
        let val_len = data[k + key_len] as usize;
        let v = k + key_len + 1;
        if val_len > n - v {
            return None;
        }
        let key = vstd::slice::slice_subrange(data, k, k + key_len);
        if bytes_equal(key, attribute) {
            return Some(vstd::slice::slice_subrange(data, v, v + val_len));
        }
        idx = v + val_len;
    }
    None
}

} // verus!
