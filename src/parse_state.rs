//! The interning pool of one parse unit.
use std::sync::Arc;
use vstd::prelude::*;
use crate::syntax::Ident;

verus! {

/// Interns strings and issues the tags of identifier occurrences.
#[derive(Debug, Clone)]
pub struct ParseState {
    ident_id: usize,
    pool: Vec<Arc<String>>,
}

impl ParseState {
    /// The tag that the next identifier will get.
    pub closed spec fn next_id(&self) -> nat {
        self.ident_id as nat
    }

    /// The texts held by the pool, in order of first sight.
    pub closed spec fn texts(&self) -> Seq<Seq<char>> {
        self.pool@.map_values(|a: Arc<String>| a@)
    }

    /// The pool holds at most one copy of each text.
    pub closed spec fn wf(&self) -> bool {
        self.texts().no_duplicates()
    }

    pub fn new() -> (r: ParseState)
        ensures
            r.wf(),
            r.next_id() == 0,
            r.texts() == Seq::<Seq<char>>::empty(),
    {
        let r = ParseState { ident_id: 0, pool: Vec::new() };
        assert(r.texts() =~= Seq::<Seq<char>>::empty());
        r
    }

    /// The pool's single shared copy of `s`, added on first sight.
    pub fn str_pool(&mut self, s: &str) -> (r: Arc<String>)
        requires
            old(self).wf(),
        ensures
            final(self).wf(),
            r@ == s@,
            final(self).next_id() == old(self).next_id(),
            final(self).texts() == (if old(self).texts().contains(s@) {
                old(self).texts()
            } else {
                old(self).texts().push(s@)
            }),
    {
        let owned = s.to_owned();
        let mut k: usize = 0;
        while k < self.pool.len()
            invariant
                self == old(self),
                old(self).wf(),
                owned@ == s@,
                k <= self.pool@.len(),
                forall|j: int| 0 <= j < k ==> self.texts()[j] != s@,
            decreases self.pool@.len() - k,
        {
            let found: &String = &self.pool[k];
            if found.eq(&owned) {
                assert(self.texts()[k as int] == s@);
                return self.pool[k].clone();
            }
            k = k + 1;
        }
        let r = Arc::new(owned);
        self.pool.push(r.clone());
        proof {
            assert(!old(self).texts().contains(s@));
            assert(self.texts() =~= old(self).texts().push(s@));
        }
        r
    }

    /// The number of identifiers issued so far.
    pub fn ident_count(&self) -> (r: usize)
        ensures
            r == self.next_id(),
    {
        self.ident_id
    }

    /// A fresh identifier occurrence named `name`, with the next tag.
    pub fn ident(&mut self, name: &str) -> (r: Ident)
        requires
            old(self).wf(),
            old(self).next_id() < usize::MAX,
        ensures
            final(self).wf(),
            r.name@ == name@,
            r.id == old(self).next_id(),
            final(self).next_id() == old(self).next_id() + 1,
            final(self).texts() == (if old(self).texts().contains(name@) {
                old(self).texts()
            } else {
                old(self).texts().push(name@)
            }),
    {
        let name = self.str_pool(name);
        let ident = Ident { name, id: self.ident_id };
        self.ident_id = self.ident_id + 1;
        ident
    }
}

} // verus!
