//! Request headers, looked up by name without regard to ASCII case.
use vstd::prelude::*;
use vstd::string::StringSliceAdditionalSpecFns;

verus! {

/// A byte with ASCII upper case letters turned to lower case.
pub open spec fn ascii_lower_byte(b: u8) -> u8 {
    if 65 <= b <= 90 {
        (b + 32) as u8
    } else {
        b
    }
}

/// A header name in the form that names are compared in.
pub open spec fn ascii_lower(s: Seq<u8>) -> Seq<u8> {
    s.map_values(|b: u8| ascii_lower_byte(b))
}

/// The value of the last entry whose name is `key`, if any.
pub open spec fn find_header(entries: Seq<(Seq<u8>, Seq<char>)>, key: Seq<u8>) -> Option<Seq<char>>
    decreases entries.len(),
{
    if entries.len() == 0 {
        None
    } else if entries.last().0 == key {
        Some(entries.last().1)
    } else {
        find_header(entries.drop_last(), key)
    }
}

/// The value that header `name` has in `entries`, the name compared without
/// regard to ASCII case; a later entry overrides an earlier one.
pub open spec fn header_value(entries: Seq<(Seq<u8>, Seq<char>)>, name: Seq<u8>) -> Option<Seq<char>> {
    find_header(entries, ascii_lower(name))
}

/// The headers of one request, as (lower-cased name, value) entries in the
/// order they were added.
pub struct Headers {
    entries: Vec<(Vec<u8>, String)>,
}

impl View for Headers {
    type V = Seq<(Seq<u8>, Seq<char>)>;

    closed spec fn view(&self) -> Seq<(Seq<u8>, Seq<char>)> {
        self.entries@.map_values(|e: (Vec<u8>, String)| (e.0@, e.1@))
    }
}

fn lower_name(name: &[u8]) -> (r: Vec<u8>)
    ensures
        r@ == ascii_lower(name@),
{
    let mut out: Vec<u8> = Vec::new();
    let mut i: usize = 0;
    while i < name.len()
        invariant
            0 <= i <= name@.len(),
            out@ == ascii_lower(name@.subrange(0, i as int)),
        decreases name@.len() - i,
    {
        let b = name[i];
        let l: u8 = if 65 <= b && b <= 90 { b + 32 } else { b };
        out.push(l);
        i = i + 1;
        assert(out@ =~= ascii_lower(name@.subrange(0, i as int)));
    }
    assert(name@.subrange(0, i as int) =~= name@);
    out
}

impl Headers {
    /// An empty set of headers.
    pub fn new() -> (r: Headers)
        ensures
            r@ == Seq::<(Seq<u8>, Seq<char>)>::empty(),
    {
        let r = Headers { entries: Vec::new() };
        assert(r@ =~= Seq::<(Seq<u8>, Seq<char>)>::empty());
        r
    }

    /// Records header `name` with `value`; the name is stored lower-cased, and
    /// a later entry of the same name overrides this one.
    pub fn insert(&mut self, name: &str, value: &str)
        ensures
            final(self)@ == old(self)@.push((ascii_lower(name.spec_bytes()), value@)),
    {
        let key = lower_name(name.as_bytes());
        let v = value.to_owned();
        self.entries.push((key, v));
        assert(final(self)@ =~= old(self)@.push((ascii_lower(name.spec_bytes()), value@)));
    }

    /// The value of header `name`, the name compared without regard to ASCII
    /// case.
    pub fn get(&self, name: &str) -> (r: Option<&str>)
        ensures
            match r {
                Some(v) => header_value(self@, name.spec_bytes()) == Some(v@),
                None => header_value(self@, name.spec_bytes()) is None,
            },
    {
        let key = lower_name(name.as_bytes());
        let ghost k = ascii_lower(name.spec_bytes());
        let mut i: usize = self.entries.len();
        assert(self@.subrange(0, i as int) =~= self@);
        while i > 0
            invariant
                0 <= i <= self@.len(),
                self@.len() == self.entries@.len(),
                key@ == k,
                k == ascii_lower(name.spec_bytes()),
                find_header(self@, k) == find_header(self@.subrange(0, i as int), k),
            decreases i,
        {
            i = i - 1;
            let ghost prefix = self@.subrange(0, i + 1);
            assert(prefix.drop_last() =~= self@.subrange(0, i as int));
            assert(prefix.last() == self@[i as int]);
            assert(self@[i as int] == (self.entries@[i as int].0@, self.entries@[i as int].1@));
            if self.entries[i].0 == key {
                assert(self.entries@[i as int].0@ == key@);
                return Some(self.entries[i].1.as_str());
            }
        }
        assert(self@.subrange(0, 0) =~= Seq::<(Seq<u8>, Seq<char>)>::empty());
        None
    }
}

} // verus!
