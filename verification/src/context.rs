//! The evaluation context: variable bindings.
//!
//! A context maps variable names to values; every value is the bit pattern
//! of an IEEE-754 binary64 number.  Binding a name again replaces the
//! earlier binding.  Name resolution is case-sensitive and exact.

use vstd::prelude::*;

verus! {

/// Equality of two byte strings.
pub fn bytes_eq(a: &[u8], b: &[u8]) -> (r: bool)
    ensures
        r == (a@ == b@),
{
    if a.len() != b.len() {
        return false;
    }
    let mut i: usize = 0;
    while i < a.len()
        invariant
            i <= a@.len(),
            a@.len() == b@.len(),
            forall|q: int| 0 <= q < i ==> a@[q] == b@[q],
        decreases a@.len() - i,
    {
        if a[i] != b[i] {
            return false;
        }
        i += 1;
    }
    proof {
        assert(a@ =~= b@);
    }
    true
}

/// The map described by a list of bindings; a later pair wins.
pub open spec fn bindings_map(entries: Seq<(Vec<u8>, u64)>) -> Map<Seq<u8>, u64>
    decreases entries.len(),
{
    if entries.len() == 0 {
        Map::empty()
    } else {
        bindings_map(entries.drop_last()).insert(entries.last().0@, entries.last().1)
    }
}

/// A mapping from variable names to values, created empty for each
/// evaluation, populated by [`Context::var`] and read by
/// [`Context::lookup`].
pub struct Context {
    entries: Vec<(Vec<u8>, u64)>,
}

impl View for Context {
    type V = Map<Seq<u8>, u64>;

    closed spec fn view(&self) -> Map<Seq<u8>, u64> {
        bindings_map(self.entries@)
    }
}

impl Context {
    /// An empty context: no variable is bound.
    pub fn new() -> (r: Context)
        ensures
            r@ == Map::<Seq<u8>, u64>::empty(),
    {
        Context { entries: Vec::new() }
    }

    /// Binds `name` to `value` (an IEEE-754 binary64 bit pattern),
    /// replacing any earlier binding of the same name.
    pub fn var(&mut self, name: Vec<u8>, value: u64)
        ensures
            final(self)@ == old(self)@.insert(name@, value),
    {
        let ghost nv = name@;
        self.entries.push((name, value));
        proof {
            assert(self.entries@.drop_last() =~= old(self).entries@);
            assert(self.entries@.last().0@ == nv);
        }
    }

    /// The value of the latest binding of `name`, if the name is bound.
    pub fn lookup(&self, name: &[u8]) -> (r: Option<u64>)
        ensures
            match r {
                Some(v) => self@.contains_key(name@) && v == self@[name@],
                None => !self@.contains_key(name@),
            },
    {
        let ghost full = self.entries@;
        let mut k = self.entries.len();
        proof {
            assert(full.take(k as int) =~= full);
        }
        while k > 0
            invariant
                k <= self.entries@.len(),
                full == self.entries@,
                self@.contains_key(name@) <==> bindings_map(full.take(k as int)).contains_key(
                    name@,
                ),
                self@.contains_key(name@) ==> self@[name@] == bindings_map(
                    full.take(k as int),
                ).index(name@),
            decreases k,
        {
            let entry_name = &self.entries[k - 1].0;
            proof {
                assert(full.take(k as int).last() == full[k as int - 1]);
                assert(full.take(k as int).drop_last() =~= full.take(k as int - 1));
            }
            if bytes_eq(entry_name.as_slice(), name) {
                return Some(self.entries[k - 1].1);
            }
            k -= 1;
        }
        proof {
            assert(full.take(0) =~= Seq::<(Vec<u8>, u64)>::empty());
        }
        None
    }
}

} // verus!
