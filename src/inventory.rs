//! A player's inventory: how many of each item type the player holds.
use vstd::prelude::*;

verus! {

/// The count held under `name` in a list of entries; zero where absent.
pub open spec fn amount(entries: Seq<(Seq<char>, u32)>, name: Seq<char>) -> nat
    decreases entries.len(),
{
    if entries.len() == 0 {
        0
    } else if entries.last().0 == name {
        entries.last().1 as nat
    } else {
        amount(entries.drop_last(), name)
    }
}

/// No item type appears twice.
pub open spec fn names_unique(entries: Seq<(Seq<char>, u32)>) -> bool {
    forall|i: int, j: int|
        0 <= i < entries.len() && 0 <= j < entries.len() && i != j ==> entries[i].0 != entries[j].0
}

/// One material that a recipe consumes.
#[derive(Clone, Debug)]
pub struct MaterialRequirement {
    pub item_type: String,
    pub quantity: u32,
}

/// Whether `entries` hold every requirement of `reqs`.
pub open spec fn covers(entries: Seq<(Seq<char>, u32)>, reqs: Seq<MaterialRequirement>) -> bool {
    forall|i: int|
        0 <= i < reqs.len() ==> amount(entries, #[trigger] reqs[i].item_type@) >= reqs[i].quantity
}

/// The count after taking `quantity` away from `count`, stopping at zero.
pub open spec fn taken(count: nat, quantity: nat) -> nat {
    if count >= quantity {
        (count - quantity) as nat
    } else {
        0
    }
}

/// What is left of `held` units of `name` after each requirement of `reqs`
/// on `name`, in order, takes its quantity away (stopping at zero).
pub open spec fn remaining(held: nat, name: Seq<char>, reqs: Seq<MaterialRequirement>) -> nat
    decreases reqs.len(),
{
    if reqs.len() == 0 {
        held
    } else {
        let before = remaining(held, name, reqs.drop_last());
        if reqs.last().item_type@ == name {
            taken(before, reqs.last().quantity as nat)
        } else {
            before
        }
    }
}

/// The two lists hold the same item types, in the same order.
pub open spec fn same_names(a: Seq<(Seq<char>, u32)>, b: Seq<(Seq<char>, u32)>) -> bool {
    &&& a.len() == b.len()
    &&& forall|i: int| 0 <= i < a.len() ==> #[trigger] a[i].0 == b[i].0
}

/// Whether `name` has an entry in the list.
pub open spec fn is_listed(entries: Seq<(Seq<char>, u32)>, name: Seq<char>) -> bool {
    exists|i: int| 0 <= i < entries.len() && #[trigger] entries[i].0 == name
}

/// Item counts held by a player.
pub struct Inventory {
    entries: Vec<(String, u32)>,
}

impl View for Inventory {
    type V = Seq<(Seq<char>, u32)>;

    closed spec fn view(&self) -> Seq<(Seq<char>, u32)> {
        self.entries@.map_values(|e: (String, u32)| (e.0@, e.1))
    }
}

proof fn lemma_amount_absent(s: Seq<(Seq<char>, u32)>, name: Seq<char>)
    requires
        forall|j: int| 0 <= j < s.len() ==> s[j].0 != name,
    ensures
        amount(s, name) == 0,
    decreases s.len(),
{
    if s.len() > 0 {
        lemma_amount_absent(s.drop_last(), name);
    }
}

proof fn lemma_amount_at(s: Seq<(Seq<char>, u32)>, name: Seq<char>, i: int)
    requires
        0 <= i < s.len(),
        s[i].0 == name,
        forall|j: int| 0 <= j < s.len() && j != i ==> s[j].0 != name,
    ensures
        amount(s, name) == s[i].1,
    decreases s.len(),
{
    if i < s.len() - 1 {
        lemma_amount_at(s.drop_last(), name, i);
    } else {
        lemma_amount_absent(s.drop_last(), name);
    }
}

proof fn lemma_amount_update(s: Seq<(Seq<char>, u32)>, i: int, v: u32, name: Seq<char>)
    requires
        0 <= i < s.len(),
    ensures
        s[i].0 != name ==> amount(s.update(i, (s[i].0, v)), name) == amount(s, name),
    decreases s.len(),
{
    let t = s.update(i, (s[i].0, v));
    if i < s.len() - 1 {
        assert(t.drop_last() =~= s.drop_last().update(i, (s[i].0, v)));
        lemma_amount_update(s.drop_last(), i, v, name);
    } else {
        assert(t.drop_last() =~= s.drop_last());
    }
}

impl Inventory {
    #[verifier::type_invariant]
    spec fn unique(&self) -> bool {
        names_unique(self@)
    }

    /// An empty inventory.
    pub fn new() -> (r: Inventory)
        ensures
            forall|name: Seq<char>| amount(r@, name) == 0,
            r@.len() == 0,
    {
        let r = Inventory { entries: Vec::new() };
        assert(r@ =~= Seq::<(Seq<char>, u32)>::empty());
        r
    }

    /// The entries, one per item type, in the order they were added.
    pub fn entries(&self) -> (r: Vec<(String, u32)>)
        ensures
            r@.map_values(|e: (String, u32)| (e.0@, e.1)) == self@,
    {
        let mut out: Vec<(String, u32)> = Vec::new();
        let mut i: usize = 0;
        while i < self.entries.len()
            invariant
                i <= self.entries@.len(),
                out@.map_values(|e: (String, u32)| (e.0@, e.1)) =~= self@.subrange(0, i as int),
            decreases self.entries@.len() - i,
        {
            let e = &self.entries[i];
            let key = e.0.clone();
            let ghost prev = out@;
            out.push((key, e.1));
            proof {
                assert(out@ == prev.push((key, e.1)));
                assert(out@.map_values(|e: (String, u32)| (e.0@, e.1)) =~= prev.map_values(
                    |e: (String, u32)| (e.0@, e.1),
                ).push((key@, e.1)));
            }
            i = i + 1;
            assert(out@.map_values(|e: (String, u32)| (e.0@, e.1)) =~= self@.subrange(0, i as int));
        }
        assert(self@.subrange(0, self@.len() as int) =~= self@);
        out
    }

    /// Where `name` is held, if anywhere.
    fn position(&self, name: &str) -> (r: Option<usize>)
        ensures
            r matches Some(i) ==> i < self@.len() && self@[i as int].0 == name@,
            r is None ==> forall|j: int| 0 <= j < self@.len() ==> self@[j].0 != name@,
    {
        let target = name.to_owned();
        let mut i: usize = 0;
        while i < self.entries.len()
            invariant
                target@ == name@,
                i <= self.entries@.len(),
                self@.len() == self.entries@.len(),
                forall|j: int| 0 <= j < i ==> self@[j].0 != name@,
            decreases self.entries@.len() - i,
        {
            if self.entries[i].0 == target {
                return Some(i);
            }
            i = i + 1;
        }
        None
    }

    /// How many of `name` are held (zero where none are).
    pub fn count(&self, name: &str) -> (r: u32)
        ensures
            r == amount(self@, name@),
    {
        proof {
            use_type_invariant(self);
        }
        match self.position(name) {
            Some(i) => {
                proof {
                    lemma_amount_at(self@, name@, i as int);
                }
                self.entries[i].1
            },
            None => {
                proof {
                    lemma_amount_absent(self@, name@);
                }
                0
            },
        }
    }

    /// Sets the count held of `name` to `value`.
    pub fn set(&mut self, name: &str, value: u32)
        ensures
            amount(final(self)@, name@) == value,
            forall|other: Seq<char>| other != name@ ==> amount(final(self)@, other) == amount(old(self)@, other),
            is_listed(old(self)@, name@) ==> same_names(old(self)@, final(self)@),
    {
        proof {
            use_type_invariant(&*self);
        }
        match self.position(name) {
            Some(i) => {
                let ghost before = self@;
                let key = self.entries[i].0.clone();
                let mut entries: Vec<(String, u32)> = Vec::new();
                std::mem::swap(&mut entries, &mut self.entries);
                proof {
                    assert(entries@.map_values(|e: (String, u32)| (e.0@, e.1)) == before);
                }
                entries.set(i, (key, value));
                proof {
                    let after = entries@.map_values(|e: (String, u32)| (e.0@, e.1));
                    assert(after =~= before.update(i as int, (before[i as int].0, value)));
                    assert forall|other: Seq<char>| other != name@ implies amount(after, other) == amount(before, other) by {
                        lemma_amount_update(before, i as int, value, other);
                    }
                    lemma_amount_at(after, name@, i as int);
                    assert(same_names(before, after));
                }
                self.entries = entries;
            },
            None => {
                let ghost before = self@;
                let mut entries: Vec<(String, u32)> = Vec::new();
                std::mem::swap(&mut entries, &mut self.entries);
                entries.push((name.to_owned(), value));
                proof {
                    let after = entries@.map_values(|e: (String, u32)| (e.0@, e.1));
                    assert(after =~= before.push((name@, value)));
                    assert(after.drop_last() =~= before);
                    assert(!is_listed(before, name@));
                }
                self.entries = entries;
            },
        }
    }

    /// Adds `quantity` of `item_type`.
    pub fn add_item(&mut self, item_type: &str, quantity: u32)
        requires
            amount(old(self)@, item_type@) + quantity <= u32::MAX,
        ensures
            amount(final(self)@, item_type@) == amount(old(self)@, item_type@) + quantity,
            forall|other: Seq<char>| other != item_type@ ==> amount(final(self)@, other) == amount(old(self)@, other),
    {
        let held = self.count(item_type);
        self.set(item_type, held + quantity);
    }

    /// Whether every requirement is held in at least the required quantity.
    pub fn has_materials(&self, materials: &[MaterialRequirement]) -> (r: bool)
        ensures
            r == covers(self@, materials@),
    {
        let mut i: usize = 0;
        while i < materials.len()
            invariant
                i <= materials@.len(),
                forall|j: int| 0 <= j < i ==> amount(self@, #[trigger] materials@[j].item_type@) >= materials@[j].quantity,
            decreases materials@.len() - i,
        {
            let req = &materials[i];
            if self.count(req.item_type.as_str()) < req.quantity {
                return false;
            }
            i = i + 1;
        }
        true
    }

    /// Takes each requirement away in turn from what is held of it, stopping
    /// at zero; item types that are not held stay absent.
    pub fn consume_materials(&mut self, materials: &[MaterialRequirement])
        ensures
            forall|name: Seq<char>|
                #![trigger amount(final(self)@, name)]
                amount(final(self)@, name) == remaining(amount(old(self)@, name), name, materials@),
            same_names(old(self)@, final(self)@),
    {
        let ghost start = self@;
        let mut i: usize = 0;
        while i < materials.len()
            invariant
                i <= materials@.len(),
                forall|name: Seq<char>|
                    #![trigger amount(self@, name)]
                    amount(self@, name) == remaining(
                        amount(start, name),
                        name,
                        materials@.subrange(0, i as int),
                    ),
                same_names(start, self@),
            decreases materials@.len() - i,
        {
            let req = &materials[i];
            let name = req.item_type.as_str();
            let ghost before = self@;
            proof {
                use_type_invariant(&*self);
            }
            match self.position(name) {
                Some(k) => {
                    assert(is_listed(self@, name@) && self@[k as int].0 == name@);
                    let held = self.count(name);
                    let left: u32 = if held >= req.quantity { held - req.quantity } else { 0 };
                    self.set(name, left);
                },
                None => {
                    proof {
                        lemma_amount_absent(self@, name@);
                    }
                },
            }
            proof {
                let done = materials@.subrange(0, i + 1);
                assert(done.drop_last() =~= materials@.subrange(0, i as int));
                assert forall|other: Seq<char>|
                    #![trigger amount(self@, other)]
                    amount(self@, other) == remaining(amount(start, other), other, done) by {
                    if other != name@ {
                        assert(amount(self@, other) == amount(before, other));
                    }
                }
            }
            i = i + 1;
        }
        assert(materials@.subrange(0, materials@.len() as int) =~= materials@);
    }
}

} // verus!
