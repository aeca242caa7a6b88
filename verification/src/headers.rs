//! The header mapping: case-insensitive names, multiple values allowed,
//! insertion order preserved for encoding.

use vstd::prelude::*;

verus! {

use crate::bytes::{eq_ignore_case, spec_lower, spec_has_substring};

/// An ordered list of header fields. Lookups fold ASCII case on the name;
/// encoding writes the fields in insertion order.
#[derive(Debug)]
pub struct Headers {
    items: Vec<(Vec<u8>, Vec<u8>)>,
}

impl View for Headers {
    type V = Seq<(Seq<u8>, Seq<u8>)>;

    closed spec fn view(&self) -> Seq<(Seq<u8>, Seq<u8>)> {
        self.items@.map_values(|p: (Vec<u8>, Vec<u8>)| (p.0@, p.1@))
    }
}

/// The first value stored under `name`, case-insensitively, if any.
pub open spec fn spec_get(hs: Seq<(Seq<u8>, Seq<u8>)>, name: Seq<u8>) -> Option<Seq<u8>>
    decreases hs.len(),
{
    if hs.len() == 0 {
        None
    } else if spec_lower(hs[0].0) == spec_lower(name) {
        Some(hs[0].1)
    } else {
        spec_get(hs.skip(1), name)
    }
}

impl Headers {
    /// An empty header mapping.
    pub fn new() -> (r: Headers)
        ensures
            r@ == Seq::<(Seq<u8>, Seq<u8>)>::empty(),
    {
        let r = Headers { items: Vec::new() };
        proof {
            assert(r@ =~= Seq::<(Seq<u8>, Seq<u8>)>::empty());
        }
        r
    }

    /// How many fields are stored.
    pub fn len(&self) -> (r: usize)
        ensures
            r == self@.len(),
    {
        self.items.len()
    }

    /// The name of the field at `i`.
    pub fn name_at(&self, i: usize) -> (r: &Vec<u8>)
        requires
            i < self@.len(),
        ensures
            r@ == self@[i as int].0,
    {
        &self.items[i].0
    }

    /// The value of the field at `i`.
    pub fn value_at(&self, i: usize) -> (r: &Vec<u8>)
        requires
            i < self@.len(),
        ensures
            r@ == self@[i as int].1,
    {
        &self.items[i].1
    }

    /// Adds a field at the end, keeping any fields already stored under the
    /// same name.
    pub fn push(&mut self, name: Vec<u8>, value: Vec<u8>)
        ensures
            final(self)@ == old(self)@.push((name@, value@)),
    {
        let ghost n = name@;
        let ghost v = value@;
        self.items.push((name, value));
        proof {
            assert(self@ =~= old(self)@.push((n, v)));
        }
    }

    /// The first value stored under `name`, case-insensitively.
    pub fn get(&self, name: &[u8]) -> (r: Option<&Vec<u8>>)
        ensures
            match r {
                Some(v) => spec_get(self@, name@) == Some(v@),
                None => spec_get(self@, name@) == None::<Seq<u8>>,
            },
    {
        let mut i: usize = 0;
        proof {
            assert(self@.skip(0) =~= self@);
        }
        while i < self.items.len()
            invariant
                i <= self@.len(),
                self@.len() == self.items@.len(),
                spec_get(self@, name@) == spec_get(self@.skip(i as int), name@),
            decreases self@.len() - i,
        {
            if eq_ignore_case(self.items[i].0.as_slice(), name) {
                assert(self@.skip(i as int)[0] == self@[i as int]);
                return Some(&self.items[i].1);
            }
            proof {
                assert(self@.skip(i as int)[0] == self@[i as int]);
                assert(self@.skip(i as int).skip(1) =~= self@.skip(i + 1));
            }
            i += 1;
        }
        proof {
            assert(self@.skip(i as int) =~= Seq::<(Seq<u8>, Seq<u8>)>::empty());
        }
        None
    }

    /// Whether any field is stored under `name`, case-insensitively.
    pub fn contains(&self, name: &[u8]) -> (r: bool)
        ensures
            r == spec_get(self@, name@).is_some(),
    {
        match self.get(name) {
            Some(_) => true,
            None => false,
        }
    }
}

/// Whether the first value under `name` has `needle` as a substring;
/// false if the name is absent.
pub open spec fn spec_value_has(
    hs: Seq<(Seq<u8>, Seq<u8>)>,
    name: Seq<u8>,
    needle: Seq<u8>,
) -> bool {
    match spec_get(hs, name) {
        Some(v) => spec_has_substring(v, needle),
        None => false,
    }
}

impl Headers {
    /// Whether the first value under `name` contains `needle`.
    pub fn value_has(&self, name: &[u8], needle: &[u8]) -> (r: bool)
        ensures
            r == spec_value_has(self@, name@, needle@),
    {
        match self.get(name) {
            Some(v) => crate::bytes::has_substring(v.as_slice(), needle),
            None => false,
        }
    }
}

} // verus!
