use vstd::prelude::*;

verus! {

/// What the ranking knows of one user: name, jobs dispatched so far, jobs pending.
pub type Standing = (Seq<char>, nat, nat);

/// Entries are ordered by ascending count of dispatched jobs.
pub open spec fn sorted_by_scheduled(s: Seq<Standing>) -> bool {
    forall|i: int, j: int| 0 <= i < j < s.len() ==> #[trigger] s[i].1 <= #[trigger] s[j].1
}

/// No user has two entries.
pub open spec fn names_unique(s: Seq<Standing>) -> bool {
    forall|i: int, j: int|
        0 <= i < s.len() && 0 <= j < s.len() && i != j ==> #[trigger] s[i].0 != #[trigger] s[j].0
}

/// The position of the entry of `name`, or -1 when there is none.
pub open spec fn index_of(s: Seq<Standing>, name: Seq<char>) -> int {
    if exists|i: int| 0 <= i < s.len() && s[i].0 == name {
        choose|i: int| 0 <= i < s.len() && s[i].0 == name
    } else {
        -1
    }
}

/// Whether `k` is the position just behind every leading entry whose
/// dispatched count does not exceed `v`.
pub open spec fn slot_at(s: Seq<Standing>, v: nat, k: int) -> bool {
    &&& 0 <= k <= s.len()
    &&& forall|j: int| 0 <= j < k ==> s[j].1 <= v
    &&& k < s.len() ==> s[k].1 > v
}

/// Where an entry whose rank is `v` goes when `s` is sorted again with ties
/// kept in their earlier order: behind all entries ranked `v` or lower.
pub open spec fn slot(s: Seq<Standing>, v: nat) -> int {
    choose|k: int| slot_at(s, v, k)
}

/// The ranking after one more job of `name` was queued.
pub open spec fn after_queued(s: Seq<Standing>, name: Seq<char>) -> Seq<Standing> {
    let i = index_of(s, name);
    if 0 <= i {
        s.update(i, (name, s[i].1, s[i].2 + 1))
    } else {
        s.insert(slot(s, 0), (name, 0nat, 1nat))
    }
}

/// The ranking after one job of `name` was dispatched. An unseen user enters
/// with one dispatched job and none pending.
pub open spec fn after_scheduled(s: Seq<Standing>, name: Seq<char>) -> Seq<Standing> {
    let i = index_of(s, name);
    if 0 <= i {
        let rest = s.remove(i);
        rest.insert(slot(rest, s[i].1), (name, s[i].1 + 1, (s[i].2 - 1) as nat))
    } else {
        s.insert(slot(s, 1), (name, 1nat, 0nat))
    }
}

/// Pending jobs of `name`; none for an unseen user.
pub open spec fn pending_of(s: Seq<Standing>, name: Seq<char>) -> nat {
    let i = index_of(s, name);
    if 0 <= i {
        s[i].2
    } else {
        0
    }
}

/// Dispatched jobs of `name`; none for an unseen user.
pub open spec fn served_of(s: Seq<Standing>, name: Seq<char>) -> nat {
    let i = index_of(s, name);
    if 0 <= i {
        s[i].1
    } else {
        0
    }
}

/// Whether `i` is the first entry with pending work.
pub open spec fn first_pending_at(s: Seq<Standing>, i: int) -> bool {
    &&& 0 <= i < s.len()
    &&& s[i].2 > 0
    &&& forall|j: int| 0 <= j < i ==> s[j].2 == 0
}

/// The user to serve next: the first one in ranking order with pending work.
pub open spec fn next_of(s: Seq<Standing>) -> Option<Seq<char>> {
    if exists|i: int| first_pending_at(s, i) {
        Some(s[choose|i: int| first_pending_at(s, i)].0)
    } else {
        None
    }
}

/// With names unique, the entry found by name is the one at hand.
pub proof fn lemma_index_at(s: Seq<Standing>, name: Seq<char>, i: int)
    requires
        names_unique(s),
        0 <= i < s.len(),
        s[i].0 == name,
    ensures
        index_of(s, name) == i,
{
    let c = choose|c: int| 0 <= c < s.len() && s[c].0 == name;
    assert(0 <= c < s.len() && s[c].0 == name);
    if c != i {
        assert(s[c].0 != s[i].0);
    }
}

/// A name with no entry has no position.
pub proof fn lemma_index_none(s: Seq<Standing>, name: Seq<char>)
    requires
        forall|k: int| 0 <= k < s.len() ==> s[k].0 != name,
    ensures
        index_of(s, name) == -1,
{
}

proof fn lemma_index_found(s: Seq<Standing>, name: Seq<char>)
    requires
        0 <= index_of(s, name),
    ensures
        index_of(s, name) < s.len(),
        s[index_of(s, name)].0 == name,
{
}

/// Only one position has the property that defines `slot`.
pub proof fn lemma_slot_unique(s: Seq<Standing>, v: nat, k: int)
    requires
        slot_at(s, v, k),
    ensures
        slot(s, v) == k,
{
    let c = choose|c: int| slot_at(s, v, c);
    assert(slot_at(s, v, c));
    if c < k {
        assert(s[c].1 <= v);
    } else if c > k {
        assert(s[k].1 <= v);
    }
}

/// Every ranking has such a position.
pub proof fn lemma_slot_exists(s: Seq<Standing>, v: nat)
    ensures
        slot_at(s, v, slot(s, v)),
    decreases s.len(),
{
    if s.len() == 0 {
        assert(slot_at(s, v, 0));
    } else {
        let t = s.drop_last();
        lemma_slot_exists(t, v);
        let k = slot(t, v);
        assert forall|j: int| 0 <= j < k implies s[j].1 <= v by {
            assert(s[j] == t[j]);
        };
        if k < t.len() {
            assert(s[k] == t[k]);
            assert(slot_at(s, v, k));
        } else if s.last().1 > v {
            assert(slot_at(s, v, t.len() as int));
        } else {
            assert(slot_at(s, v, s.len() as int));
        }
    }
}

proof fn lemma_insert_keeps_order(s: Seq<Standing>, v: nat, e: Standing)
    requires
        sorted_by_scheduled(s),
        names_unique(s),
        v <= e.1 <= v + 1,
        forall|j: int| 0 <= j < s.len() ==> s[j].0 != e.0,
    ensures
        sorted_by_scheduled(s.insert(slot(s, v), e)),
        names_unique(s.insert(slot(s, v), e)),
{
    lemma_slot_exists(s, v);
    let k = slot(s, v);
    let t = s.insert(k, e);
    assert forall|i: int, j: int| 0 <= i < j < t.len() implies #[trigger] t[i].1 <= #[trigger] t[j].1 by {
        if j < k {
        } else if j == k {
            assert(t[i] == s[i]);
        } else if i < k {
            assert(t[j] == s[j - 1]);
            assert(s[k].1 > v);
            assert(s[k].1 <= s[j - 1].1);
        } else if i == k {
            assert(t[j] == s[j - 1]);
            assert(s[k].1 > v);
            assert(s[k].1 <= s[j - 1].1);
        } else {
            assert(t[i] == s[i - 1] && t[j] == s[j - 1]);
        }
    };
    assert forall|i: int, j: int|
        0 <= i < t.len() && 0 <= j < t.len() && i != j implies #[trigger] t[i].0 != #[trigger] t[j].0 by {
        let i0 = if i < k { i } else { i - 1 };
        let j0 = if j < k { j } else { j - 1 };
        if i != k && j != k {
            assert(t[i] == s[i0] && t[j] == s[j0]);
        } else if i == k {
            assert(t[j] == s[j0]);
        } else {
            assert(t[i] == s[i0]);
        }
    };
}

proof fn lemma_remove_keeps_order(s: Seq<Standing>, i: int)
    requires
        sorted_by_scheduled(s),
        names_unique(s),
        0 <= i < s.len(),
    ensures
        sorted_by_scheduled(s.remove(i)),
        names_unique(s.remove(i)),
        forall|j: int| 0 <= j < s.remove(i).len() ==> s.remove(i)[j].0 != s[i].0,
{
    let t = s.remove(i);
    assert forall|a: int, b: int| 0 <= a < b < t.len() implies #[trigger] t[a].1 <= #[trigger] t[b].1 by {
        let a0 = if a < i { a } else { a + 1 };
        let b0 = if b < i { b } else { b + 1 };
        assert(t[a] == s[a0] && t[b] == s[b0]);
    };
    assert forall|a: int, b: int|
        0 <= a < t.len() && 0 <= b < t.len() && a != b implies #[trigger] t[a].0 != #[trigger] t[b].0 by {
        let a0 = if a < i { a } else { a + 1 };
        let b0 = if b < i { b } else { b + 1 };
        assert(t[a] == s[a0] && t[b] == s[b0]);
    };
    assert forall|j: int| 0 <= j < t.len() implies t[j].0 != s[i].0 by {
        let j0 = if j < i { j } else { j + 1 };
        assert(t[j] == s[j0]);
    };
}

/// However jobs are queued and dispatched, the ranking stays ordered by
/// ascending dispatched count and holds each user once: both updates keep
/// these two properties.
pub proof fn ranking_stays_sorted(s: Seq<Standing>, name: Seq<char>)
    requires
        sorted_by_scheduled(s),
        names_unique(s),
    ensures
        sorted_by_scheduled(after_queued(s, name)),
        names_unique(after_queued(s, name)),
        sorted_by_scheduled(after_scheduled(s, name)),
        names_unique(after_scheduled(s, name)),
{
    let i = index_of(s, name);
    if 0 <= i {
        lemma_index_found(s, name);
        let q = after_queued(s, name);
        assert forall|a: int, b: int| 0 <= a < b < q.len() implies #[trigger] q[a].1 <= #[trigger] q[b].1 by {
            assert(s[a].1 <= s[b].1);
        };
        assert forall|a: int, b: int|
            0 <= a < q.len() && 0 <= b < q.len() && a != b implies #[trigger] q[a].0 != #[trigger] q[b].0 by {
            assert(s[a].0 != s[b].0);
        };
        lemma_remove_keeps_order(s, i);
        lemma_insert_keeps_order(s.remove(i), s[i].1, (name, s[i].1 + 1, (s[i].2 - 1) as nat));
    } else {
        assert forall|j: int| 0 <= j < s.len() implies s[j].0 != name by {
            if s[j].0 == name {
                assert(exists|i: int| 0 <= i < s.len() && s[i].0 == name);
            }
        };
        lemma_insert_keeps_order(s, 0, (name, 0nat, 1nat));
        lemma_insert_keeps_order(s, 1, (name, 1nat, 0nat));
    }
}

/// The ranking entry of one user.
pub struct User {
    name: String,
    scheduled: usize,
    queued: usize,
}

impl View for User {
    type V = Standing;

    closed spec fn view(&self) -> Standing {
        (self.name@, self.scheduled as nat, self.queued as nat)
    }
}

impl User {
    /// A user seen for the first time, with one pending job.
    pub fn new(name: String) -> (r: User)
        ensures
            r@ == (name@, 0nat, 1nat),
    {
        User { name, scheduled: 0, queued: 1 }
    }

    pub fn get_name(&self) -> (r: &str)
        ensures
            r@ == self@.0,
    {
        self.name.as_str()
    }

    /// One pending job was dispatched.
    pub fn increment_scheduled(&mut self)
        requires
            old(self)@.1 < usize::MAX,
            old(self)@.2 > 0,
        ensures
            final(self)@ == (old(self)@.0, old(self)@.1 + 1, (old(self)@.2 - 1) as nat),
    {
        self.scheduled = self.scheduled + 1;
        self.queued = self.queued - 1;
    }

    /// One more job is pending.
    pub fn increment_queued(&mut self)
        requires
            old(self)@.2 < usize::MAX,
        ensures
            final(self)@ == (old(self)@.0, old(self)@.1, old(self)@.2 + 1),
    {
        self.queued = self.queued + 1;
    }

    pub fn num_queued(&self) -> (r: usize)
        ensures
            r == self@.2,
    {
        self.queued
    }
}

/// The fair-share ranking: users with their dispatched and pending counts,
/// least served first.
pub struct Accounting {
    users: Vec<User>,
}

impl View for Accounting {
    type V = Seq<Standing>;

    closed spec fn view(&self) -> Seq<Standing> {
        self.users@.map_values(|u: User| u@)
    }
}

/// Finds where an entry ranked `v` goes: behind every leading entry ranked `v`
/// or lower.
fn find_slot(users: &Vec<User>, v: usize) -> (r: usize)
    ensures
        r == slot(users@.map_values(|u: User| u@), v as nat),
        r <= users@.len(),
{
    let ghost s = users@.map_values(|u: User| u@);
    let mut k: usize = 0;
    while k < users.len() && users[k].scheduled <= v
        invariant
            s == users@.map_values(|u: User| u@),
            0 <= k <= s.len(),
            forall|j: int| 0 <= j < k ==> s[j].1 <= v,
        decreases users.len() - k,
    {
        k = k + 1;
    }
    proof {
        lemma_slot_unique(s, v as nat, k as int);
    }
    k
}

impl Accounting {
    pub open spec fn wf(&self) -> bool {
        sorted_by_scheduled(self@) && names_unique(self@)
    }

    pub fn new() -> (r: Accounting)
        ensures
            r@ == Seq::<Standing>::empty(),
            r.wf(),
    {
        let r = Accounting { users: Vec::new() };
        assert(r@ =~= Seq::<Standing>::empty());
        r
    }

    /// Position of the entry of `user`, if there is one.
    fn find(&self, user: &String) -> (r: Option<usize>)
        requires
            self.wf(),
        ensures
            match r {
                Some(i) => i == index_of(self@, user@) && i < self@.len(),
                None => index_of(self@, user@) == -1,
            },
    {
        let mut i: usize = 0;
        while i < self.users.len()
            invariant
                self.wf(),
                0 <= i <= self@.len(),
                forall|k: int| 0 <= k < i ==> self@[k].0 != user@,
            decreases self.users.len() - i,
        {
            if self.users[i].name == *user {
                proof {
                    lemma_index_at(self@, user@, i as int);
                }
                return Some(i);
            }
            i = i + 1;
        }
        proof {
            lemma_index_none(self@, user@);
        }
        None
    }

    /// Records that one job of `user` was dispatched, and moves the user behind
    /// every other user served as often as it was before.
    pub fn scheduled(&mut self, user: String)
        requires
            old(self).wf(),
            served_of(old(self)@, user@) < usize::MAX,
            0 <= index_of(old(self)@, user@) ==> pending_of(old(self)@, user@) > 0,
        ensures
            final(self).wf(),
            final(self)@ == after_scheduled(old(self)@, user@),
    {
        let ghost s = self@;
        proof {
            ranking_stays_sorted(s, user@);
        }
        match self.find(&user) {
            Some(i) => {
                let ghost rest = s.remove(i as int);
                let mut entry = self.users.remove(i);
                assert(self@ =~= rest);
                let v = entry.scheduled;
                entry.increment_scheduled();
                let k = find_slot(&self.users, v);
                self.users.insert(k, entry);
                assert(self@ =~= rest.insert(k as int, entry@));
            },
            None => {
                let mut entry = User::new(user);
                entry.increment_scheduled();
                let k = find_slot(&self.users, 1);
                self.users.insert(k, entry);
                assert(self@ =~= s.insert(k as int, entry@));
            },
        }
    }

    /// Records that one more job of `user` is pending. An unseen user enters
    /// behind every user that has not been served yet.
    pub fn queued(&mut self, user: String)
        requires
            old(self).wf(),
            pending_of(old(self)@, user@) < usize::MAX,
        ensures
            final(self).wf(),
            final(self)@ == after_queued(old(self)@, user@),
    {
        let ghost s = self@;
        proof {
            ranking_stays_sorted(s, user@);
        }
        match self.find(&user) {
            Some(i) => {
                self.users[i].increment_queued();
                assert(self@ =~= s.update(i as int, (user@, s[i as int].1, s[i as int].2 + 1)));
            },
            None => {
                let k = find_slot(&self.users, 0);
                let entry = User::new(user);
                self.users.insert(k, entry);
                assert(self@ =~= s.insert(k as int, entry@));
            },
        }
    }

    /// The user to serve next: among users with pending work, the first in
    /// ranking order. Never a user without pending work.
    pub fn next_user(&self) -> (r: Option<String>)
        requires
            self.wf(),
        ensures
            match r {
                Some(name) => next_of(self@) == Some(name@)
                    && pending_of(self@, name@) > 0,
                None => next_of(self@) is None,
            },
    {
        let mut i: usize = 0;
        while i < self.users.len()
            invariant
                self.wf(),
                0 <= i <= self@.len(),
                forall|j: int| 0 <= j < i ==> self@[j].2 == 0,
            decreases self.users.len() - i,
        {
            if self.users[i].num_queued() > 0 {
                let name = self.users[i].get_name().to_owned();
                assert(self@[i as int] == self.users@[i as int]@);
                assert(first_pending_at(self@, i as int));
                proof {
                    lemma_index_at(self@, name@, i as int);
                }
                assert(next_of(self@) == Some(name@)) by {
                    let c = choose|c: int| first_pending_at(self@, c);
                    assert(first_pending_at(self@, c));
                    if c < i {
                    } else if c > i {
                        assert(self@[i as int].2 == 0);
                    }
                };
                return Some(name);
            }
            i = i + 1;
        }
        None
    }

    /// Pending jobs of `user`; zero for an unseen user.
    pub fn pending(&self, user: &String) -> (r: usize)
        requires
            self.wf(),
        ensures
            r == pending_of(self@, user@),
    {
        match self.find(user) {
            Some(i) => self.users[i].queued,
            None => 0,
        }
    }

    /// Dispatched jobs of `user`; zero for an unseen user.
    pub fn served(&self, user: &String) -> (r: usize)
        requires
            self.wf(),
        ensures
            r == served_of(self@, user@),
    {
        match self.find(user) {
            Some(i) => self.users[i].scheduled,
            None => 0,
        }
    }
}

} // verus!
