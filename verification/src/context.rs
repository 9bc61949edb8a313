//! The request context: the key-to-value map a request carries, matched
//! against each route's required keys and used to fill its template.

use vstd::prelude::*;

verus! {

/// First match wins: the value of the earliest entry whose key is `k`.
pub open spec fn first_match(entries: Seq<(String, String)>, k: Seq<char>) -> Option<Seq<char>>
    decreases entries.len(),
{
    if entries.len() == 0 {
        None
    } else if entries[0].0@ == k {
        Some(entries[0].1@)
    } else {
        first_match(entries.drop_first(), k)
    }
}

/// A key-to-value map of plain strings, viewed as a `Map` in contracts.
pub struct RequestContext {
    entries: Vec<(String, String)>,
}

impl View for RequestContext {
    type V = Map<Seq<char>, Seq<char>>;

    closed spec fn view(&self) -> Map<Seq<char>, Seq<char>> {
        Map::new(
            |k: Seq<char>| first_match(self.entries@, k) is Some,
            |k: Seq<char>| first_match(self.entries@, k).unwrap(),
        )
    }
}

impl RequestContext {
    /// An empty context: no key is present.
    pub fn new() -> (r: RequestContext)
        ensures
            r@ == Map::<Seq<char>, Seq<char>>::empty(),
    {
        let r = RequestContext { entries: Vec::new() };
        proof {
            assert(r@ =~= Map::<Seq<char>, Seq<char>>::empty());
        }
        r
    }

    /// Binds `key` to `value`, shadowing any earlier binding of the key.
    pub fn insert(&mut self, key: String, value: String)
        ensures
            final(self)@ == old(self)@.insert(key@, value@),
    {
        let ghost pre = self.entries@;
        self.entries.insert(0, (key, value));
        proof {
            assert(self.entries@.drop_first() =~= pre);
            assert(self@ =~= old(self)@.insert(self.entries@[0].0@, self.entries@[0].1@));
        }
    }

    /// Looks the key up.
    pub fn get(&self, key: &str) -> (r: Option<&String>)
        ensures
            match r {
                Some(v) => self@.dom().contains(key@) && v@ == self@[key@],
                None => !self@.dom().contains(key@),
            },
    {
        let n = self.entries.len();
        let mut i: usize = 0;
        proof {
            assert(self.entries@.skip(0) =~= self.entries@);
        }
        while i < n
            invariant
                0 <= i <= n,
                n == self.entries@.len(),
                first_match(self.entries@, key@) == first_match(self.entries@.skip(i as int), key@),
                forall|j: int| 0 <= j < i ==> self.entries@[j].0@ != key@,
            decreases n - i,
        {
            proof {
                assert(self.entries@.skip(i as int)[0] == self.entries@[i as int]);
            }
            if compare_str(self.entries[i].0.as_str(), key) {
                return Some(&self.entries[i].1);
            }
            proof {
                assert(self.entries@.skip(i as int).drop_first() =~= self.entries@.skip(i + 1));
            }
            i = i + 1;
        }
        proof {
            assert(self.entries@.skip(n as int) =~= Seq::<(String, String)>::empty());
        }
        None
    }

    /// Whether the key is present.
    pub fn contains_key(&self, key: &str) -> (r: bool)
        ensures
            r == self@.dom().contains(key@),
    {
        self.get(key).is_some()
    }
}

/// Whether two string slices hold the same characters.
pub fn compare_str(a: &str, b: &str) -> (r: bool)
    ensures
        r == (a@ == b@),
{
    let a_o: String = a.to_owned();
    let b_o: String = b.to_owned();
    let r = a_o == b_o;
    proof {
        if a@ == b@ {
            assert(a_o@ == b_o@);
        }
    }
    r
}

} // verus!
