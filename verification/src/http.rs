//! Handshake header collection: the bridge from an incremental header
//! parser's callbacks into a name-to-value map, where a later write for the
//! same name replaces the earlier value.

use vstd::prelude::*;
use vstd::slice::slice_to_vec;

verus! {

/// Handshake request headers, names and values as received. The view is the
/// name-to-value map the entries denote, where the last write wins.
pub struct HeaderMap {
    entries: Vec<(Vec<u8>, Vec<u8>)>,
}

impl View for HeaderMap {
    type V = Map<Seq<u8>, Seq<u8>>;

    closed spec fn view(&self) -> Map<Seq<u8>, Seq<u8>> {
        HeaderMap::map_of(self.entries@)
    }
}

impl HeaderMap {
    /// The map a sequence of (name, value) entries denotes: each entry
    /// inserted in order, so a later entry overrides an earlier one.
    pub closed spec fn map_of(entries: Seq<(Vec<u8>, Vec<u8>)>) -> Map<Seq<u8>, Seq<u8>>
        decreases entries.len(),
    {
        if entries.len() == 0 {
            Map::empty()
        } else {
            HeaderMap::map_of(entries.drop_last()).insert(
                entries.last().0@,
                entries.last().1@,
            )
        }
    }

    proof fn lemma_map_of_absent(entries: Seq<(Vec<u8>, Vec<u8>)>, k: Seq<u8>)
        requires
            forall|i: int| 0 <= i < entries.len() ==> entries[i].0@ != k,
        ensures
            !HeaderMap::map_of(entries).contains_key(k),
        decreases entries.len(),
    {
        if entries.len() > 0 {
            HeaderMap::lemma_map_of_absent(entries.drop_last(), k);
        }
    }

    proof fn lemma_map_of_found(entries: Seq<(Vec<u8>, Vec<u8>)>, i: int)
        requires
            0 <= i < entries.len(),
            forall|j: int| i < j < entries.len() ==> entries[j].0@ != entries[i].0@,
        ensures
            HeaderMap::map_of(entries).contains_key(entries[i].0@),
            HeaderMap::map_of(entries)[entries[i].0@] == entries[i].1@,
        decreases entries.len(),
    {
        if i < entries.len() - 1 {
            assert(entries.drop_last()[i] == entries[i]);
            HeaderMap::lemma_map_of_found(entries.drop_last(), i);
        }
    }

    pub fn new() -> (m: HeaderMap)
        ensures
            m@ == Map::<Seq<u8>, Seq<u8>>::empty(),
    {
        HeaderMap { entries: Vec::new() }
    }

    /// Stores `value` under `name`, replacing any earlier value for it.
    pub fn insert(&mut self, name: Vec<u8>, value: Vec<u8>)
        ensures
            final(self)@ == old(self)@.insert(name@, value@),
    {
        self.entries.push((name, value));
        proof {
            assert(self.entries@.drop_last() =~= old(self).entries@);
        }
    }

    /// The value stored under `name`, if one is.
    pub fn get(&self, name: &[u8]) -> (r: Option<&Vec<u8>>)
        ensures
            (match r {
                Some(v) => self@.contains_key(name@) && v@ == self@[name@],
                None => !self@.contains_key(name@),
            }),
    {
        let n = self.entries.len();
        let mut idx: usize = n;
        while idx > 0
            invariant
                idx <= n,
                n == self.entries@.len(),
                forall|j: int| idx <= j < n ==> self.entries@[j].0@ != name@,
            decreases idx,
        {
            idx = idx - 1;
            if bytes_eq(name, &self.entries[idx].0) {
                proof {
                    HeaderMap::lemma_map_of_found(self.entries@, idx as int);
                }
                return Some(&self.entries[idx].1);
            }
        }
        proof {
            HeaderMap::lemma_map_of_absent(self.entries@, name@);
        }
        None
    }
}

/// Byte-for-byte equality of a slice and a vector of bytes.
fn bytes_eq(a: &[u8], b: &Vec<u8>) -> (r: bool)
    ensures
        r == (a@ == b@),
{
    if a.len() != b.len() {
        proof {
            assert(a@ != b@);
        }
        return false;
    }
    let n = a.len();
    let mut i: usize = 0;
    while i < n
        invariant
            i <= n,
            n == a@.len(),
            n == b@.len(),
            forall|k: int| 0 <= k < i ==> a@[k] == b@[k],
        decreases n - i,
    {
        if a[i] != b[i] {
            return false;
        }
        i += 1;
    }
    proof {
        assert(a@ =~= b@);
    }
    true
}

/// Copies a byte vector.
fn copy_bytes(v: &Vec<u8>) -> (r: Vec<u8>)
    ensures
        r@ == v@,
{
    slice_to_vec(v.as_slice())
}

/// Bridge from the external incremental header parser's callbacks into the
/// header map: remembers the header name most recently seen, and stores
/// each header value under it.
pub struct HttpParser {
    pub current_key: Option<Vec<u8>>,
    pub headers: HeaderMap,
}

impl HttpParser {
    pub fn new() -> (p: HttpParser)
        ensures
            p.current_key is None,
            p.headers@ == Map::<Seq<u8>, Seq<u8>>::empty(),
    {
        HttpParser { current_key: None, headers: HeaderMap::new() }
    }

    /// Header-name callback: remember the name for the value that follows.
    /// Always asks the parser to continue.
    pub fn on_header_field(&mut self, s: &[u8]) -> (r: bool)
        ensures
            r,
            final(self).current_key matches Some(k) && k@ == s@,
            final(self).headers == old(self).headers,
    {
        self.current_key = Some(slice_to_vec(s));
        true
    }

    /// Header-value callback: store the value under the remembered name,
    /// replacing any earlier value; without a name seen first, store
    /// nothing. Always asks the parser to continue.
    pub fn on_header_value(&mut self, s: &[u8]) -> (r: bool)
        ensures
            r,
            final(self).current_key == old(self).current_key,
            (match old(self).current_key {
                Some(k) => final(self).headers@ == old(self).headers@.insert(k@, s@),
                None => final(self).headers@ == old(self).headers@,
            }),
    {
        let key: Option<Vec<u8>> = match &self.current_key {
            Some(k) => Some(copy_bytes(k)),
            None => None,
        };
        match key {
            Some(k) => {
                self.headers.insert(k, slice_to_vec(s));
            },
            None => {},
        }
        true
    }

    /// End-of-headers callback: the engine never needs the body, so it asks
    /// the parser not to continue past the header section.
    pub fn on_headers_complete(&mut self) -> (r: bool)
        ensures
            !r,
            *final(self) == *old(self),
    {
        false
    }
}

} // verus!
