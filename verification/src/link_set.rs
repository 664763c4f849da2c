//! A set of links, each held as the serialization of its URL.
use vstd::prelude::*;

verus! {

/// A sequence without repetitions holds as many members as its set, and the
/// same ones.
proof fn lemma_unique(s: Seq<Seq<char>>)
    requires
        s.no_duplicates(),
    ensures
        s.to_set().finite(),
        s.to_set().len() == s.len(),
        forall|l: Seq<char>| #[trigger] s.to_set().contains(l) <==> s.contains(l),
{
    s.unique_seq_to_set();
}

/// The texts of `items`, in order.
pub open spec fn texts(items: Seq<String>) -> Seq<Seq<char>> {
    items.map_values(|s: String| s@)
}

/// `s` with each repeated member left out after its first occurrence.
pub open spec fn first_occurrences(s: Seq<Seq<char>>) -> Seq<Seq<char>>
    decreases s.len(),
{
    if s.len() == 0 {
        s
    } else {
        let prev = first_occurrences(s.drop_last());
        if prev.contains(s.last()) {
            prev
        } else {
            prev.push(s.last())
        }
    }
}

/// A set of links (URL serializations) that remembers the order in which
/// its members were first inserted. No link occurs twice.
pub struct LinkSet {
    items: Vec<String>,
}

impl LinkSet {
    /// No link occurs twice in the set's order.
    #[verifier::type_invariant]
    pub open spec fn no_link_twice(self) -> bool {
        self.seq().no_duplicates()
    }

    /// The members, in order of first insertion.
    pub closed spec fn seq(&self) -> Seq<Seq<char>> {
        texts(self.items@)
    }

    /// The members as a set.
    pub open spec fn set(&self) -> Set<Seq<char>> {
        self.seq().to_set()
    }

    /// An empty set.
    pub fn new() -> (r: LinkSet)
        ensures
            r.seq() == Seq::<Seq<char>>::empty(),
            r.set() == Set::<Seq<char>>::empty(),
    {
        let r = LinkSet { items: Vec::new() };
        assert(r.seq() =~= Seq::<Seq<char>>::empty());
        assert(r.set() =~= Set::<Seq<char>>::empty());
        r
    }

    /// The members, in order of first insertion.
    pub fn links(&self) -> (r: &Vec<String>)
        ensures
            texts(r@) == self.seq(),
    {
        &self.items
    }

    /// The number of members.
    pub fn len(&self) -> (n: usize)
        ensures
            n == self.seq().len(),
            n == self.set().len(),
    {
        proof {
            use_type_invariant(self);
            lemma_unique(self.seq());
        }
        self.items.len()
    }

    /// Whether the set has no member.
    pub fn is_empty(&self) -> (b: bool)
        ensures
            b == (self.seq().len() == 0),
            b == self.set().is_empty(),
    {
        proof {
            use_type_invariant(self);
            lemma_unique(self.seq());
            if self.seq().len() > 0 {
                assert(self.set().contains(self.seq()[0]));
            }
        }
        self.items.len() == 0
    }

    /// Whether `link` is a member.
    pub fn contains(&self, link: &String) -> (b: bool)
        ensures
            b == self.set().contains(link@),
    {
        proof {
            use_type_invariant(self);
            lemma_unique(self.seq());
        }
        let n = self.items.len();
        let mut i: usize = 0;
        while i < n
            invariant
                i <= n == self.items.len(),
                forall|k: int| 0 <= k < i ==> self.seq()[k] != link@,
            decreases n - i,
        {
            if self.items[i] == *link {
                assert(self.seq()[i as int] == link@);
                return true;
            }
            i = i + 1;
        }
        assert(!self.seq().contains(link@));
        false
    }

    /// Adds `link`; returns whether it was new. A new link goes last.
    pub fn insert(&mut self, link: String) -> (added: bool)
        ensures
            added == !old(self).set().contains(link@),
            final(self).set() == old(self).set().insert(link@),
            final(self).seq() == (if added {
                old(self).seq().push(link@)
            } else {
                old(self).seq()
            }),
    {
        proof {
            use_type_invariant(&*self);
            lemma_unique(self.seq());
        }
        if self.contains(&link) {
            return false;
        }
        let ghost before = self.seq();
        let ghost l = link@;
        let mut items: Vec<String> = Vec::new();
        std::mem::swap(&mut items, &mut self.items);
        items.push(link);
        assert(texts(items@) =~= before.push(l));
        proof {
            assert forall|i: int, j: int|
                0 <= i < j < before.push(l).len() implies before.push(l)[i] != before.push(
                l,
            )[j] by {
                if j == before.len() {
                    assert(before.contains(before[i]));
                }
            }
            before.lemma_push_to_set_commute(l);
        }
        self.items = items;
        assert(self.set() =~= before.to_set().insert(l));
        true
    }

    /// Removes every member.
    pub fn clear(&mut self)
        ensures
            final(self).seq() == Seq::<Seq<char>>::empty(),
            final(self).set() == Set::<Seq<char>>::empty(),
    {
        self.items = Vec::new();
        assert(self.seq() =~= Seq::<Seq<char>>::empty());
        assert(self.set() =~= Set::<Seq<char>>::empty());
    }

    /// The set of the links in `links`, each once, in order of first
    /// occurrence.
    pub fn from_links(links: Vec<String>) -> (r: LinkSet)
        ensures
            r.seq() == first_occurrences(texts(links@)),
            r.set() == texts(links@).to_set(),
    {
        let mut r = LinkSet::new();
        let n = links.len();
        let mut i: usize = 0;
        while i < n
            invariant
                i <= n == links.len(),
                r.set() == texts(links@.subrange(0, i as int)).to_set(),
                r.seq() == first_occurrences(texts(links@.subrange(0, i as int))),
            decreases n - i,
        {
            let ghost before = links@.subrange(0, i as int);
            r.insert(links[i].clone());
            proof {
                assert(links@.subrange(0, i + 1) =~= before.push(links@[i as int]));
                assert(texts(before.push(links@[i as int])) =~= texts(before).push(links@[i as int]@));
                texts(before).lemma_push_to_set_commute(links@[i as int]@);
                assert(texts(before.push(links@[i as int])).drop_last() =~= texts(before));
            }
            i = i + 1;
        }
        assert(links@.subrange(0, n as int) =~= links@);
        r
    }
}

/// Keeping first occurrences drops only repetitions: the result holds each
/// member of `s` exactly once, nothing else, and keeps every member whose
/// first occurrence comes earlier before later ones.
pub proof fn law_first_occurrences_drop_only_repeats(s: Seq<Seq<char>>)
    ensures
        first_occurrences(s).no_duplicates(),
        forall|x: Seq<char>| #[trigger] first_occurrences(s).contains(x) <==> s.contains(x),
        first_occurrences(s).len() <= s.len(),
    decreases s.len(),
{
    if s.len() > 0 {
        let init = s.drop_last();
        law_first_occurrences_drop_only_repeats(init);
        let prev = first_occurrences(init);
        assert forall|x: Seq<char>| #[trigger] first_occurrences(s).contains(x) <==> s.contains(x) by {
            if s.contains(x) {
                let k = choose|k: int| 0 <= k < s.len() && s[k] == x;
                if k < s.len() - 1 {
                    assert(init[k] == x);
                    assert(prev.contains(x));
                    if !prev.contains(s.last()) {
                        let j = choose|j: int| 0 <= j < prev.len() && prev[j] == x;
                        assert(prev.push(s.last())[j] == x);
                    }
                } else {
                    if !prev.contains(s.last()) {
                        assert(prev.push(s.last())[prev.len() as int] == x);
                    }
                }
            }
            if first_occurrences(s).contains(x) {
                if prev.contains(x) {
                    let j = choose|j: int| 0 <= j < init.len() && init[j] == x;
                    assert(s[j] == x);
                } else {
                    let j = choose|j: int| 0 <= j < first_occurrences(s).len() && first_occurrences(s)[j] == x;
                    assert(x == s.last());
                    assert(s[s.len() - 1] == x);
                }
            }
        }
    }
}

} // verus!
