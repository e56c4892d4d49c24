use vstd::prelude::*;

verus! {

/// The texts held by a vector of strings.
pub open spec fn lines_view(v: Seq<String>) -> Seq<Seq<char>> {
    v.map_values(|s: String| s@)
}

/// `s` without its first element equal to `v`; `s` itself when no element is.
pub open spec fn remove_first<A>(s: Seq<A>, v: A) -> Seq<A>
    decreases s.len(),
{
    if s.len() == 0 {
        s
    } else if s[0] == v {
        s.drop_first()
    } else {
        seq![s[0]] + remove_first(s.drop_first(), v)
    }
}

/// `s` with its first element equal to `v` replaced by `w`; `s` itself when no element is.
pub open spec fn replace_first<A>(s: Seq<A>, v: A, w: A) -> Seq<A>
    decreases s.len(),
{
    if s.len() == 0 {
        s
    } else if s[0] == v {
        s.update(0, w)
    } else {
        seq![s[0]] + replace_first(s.drop_first(), v, w)
    }
}

/// `i` is the position of the first element of `s` equal to `v`.
pub open spec fn is_first_index<A>(s: Seq<A>, v: A, i: int) -> bool {
    &&& 0 <= i < s.len()
    &&& s[i] == v
    &&& forall|j: int| 0 <= j < i ==> s[j] != v
}

/// The log of user `u` in `m`: empty where `u` has none.
pub open spec fn log_of(m: Map<Seq<char>, Seq<Seq<char>>>, u: Seq<char>) -> Seq<Seq<char>> {
    if m.contains_key(u) {
        m[u]
    } else {
        Seq::empty()
    }
}

/// The store after user `u` has deleted the line `v`.
pub open spec fn after_remove(m: Map<Seq<char>, Seq<Seq<char>>>, u: Seq<char>, v: Seq<char>) -> Map<
    Seq<char>,
    Seq<Seq<char>>,
> {
    if m.contains_key(u) {
        m.insert(u, remove_first(m[u], v))
    } else {
        m
    }
}

/// The store after user `u` has changed the line `v` into `w`.
pub open spec fn after_replace(
    m: Map<Seq<char>, Seq<Seq<char>>>,
    u: Seq<char>,
    v: Seq<char>,
    w: Seq<char>,
) -> Map<Seq<char>, Seq<Seq<char>>> {
    if m.contains_key(u) {
        m.insert(u, replace_first(m[u], v, w))
    } else {
        m
    }
}

/// Where `i` is the first position of `v`, removing the first `v` removes position `i`.
pub proof fn lemma_remove_first_at<A>(s: Seq<A>, v: A, i: int)
    requires
        is_first_index(s, v, i),
    ensures
        remove_first(s, v) == s.remove(i),
    decreases s.len(),
{
    if i == 0 {
        assert(s.drop_first() =~= s.remove(0));
    } else {
        assert(s[0] != v);
        let t = s.drop_first();
        assert(is_first_index(t, v, i - 1)) by {
            assert forall|j: int| 0 <= j < i - 1 implies t[j] != v by {
                assert(t[j] == s[j + 1]);
            }
        }
        lemma_remove_first_at(t, v, i - 1);
        assert(seq![s[0]] + t.remove(i - 1) =~= s.remove(i));
    }
}

/// Removing the first `v` from a sequence without `v` changes nothing.
pub proof fn lemma_remove_first_absent<A>(s: Seq<A>, v: A)
    requires
        !s.contains(v),
    ensures
        remove_first(s, v) == s,
    decreases s.len(),
{
    if s.len() > 0 {
        assert(s[0] != v);
        let t = s.drop_first();
        assert(!t.contains(v)) by {
            if t.contains(v) {
                let j = choose|j: int| 0 <= j < t.len() && t[j] == v;
                assert(s[j + 1] == v);
            }
        }
        lemma_remove_first_absent(t, v);
        assert(seq![s[0]] + t =~= s);
    }
}

/// Where `i` is the first position of `v`, replacing the first `v` replaces position `i`.
pub proof fn lemma_replace_first_at<A>(s: Seq<A>, v: A, w: A, i: int)
    requires
        is_first_index(s, v, i),
    ensures
        replace_first(s, v, w) == s.update(i, w),
    decreases s.len(),
{
    if i > 0 {
        assert(s[0] != v);
        let t = s.drop_first();
        assert(is_first_index(t, v, i - 1)) by {
            assert forall|j: int| 0 <= j < i - 1 implies t[j] != v by {
                assert(t[j] == s[j + 1]);
            }
        }
        lemma_replace_first_at(t, v, w, i - 1);
        assert(seq![s[0]] + t.update(i - 1, w) =~= s.update(i, w));
    }
}

/// Replacing the first `v` in a sequence without `v` changes nothing.
pub proof fn lemma_replace_first_absent<A>(s: Seq<A>, v: A, w: A)
    requires
        !s.contains(v),
    ensures
        replace_first(s, v, w) == s,
    decreases s.len(),
{
    if s.len() > 0 {
        assert(s[0] != v);
        let t = s.drop_first();
        assert(!t.contains(v)) by {
            if t.contains(v) {
                let j = choose|j: int| 0 <= j < t.len() && t[j] == v;
                assert(s[j + 1] == v);
            }
        }
        lemma_replace_first_absent(t, v, w);
        assert(seq![s[0]] + t =~= s);
    }
}

/// The lines that one user has sent, in the order they were sent.
struct UserLog {
    user: String,
    lines: Vec<String>,
}

/// The status lines of every user, keyed by user identifier.
pub struct StatusStore {
    entries: Vec<UserLog>,
    logs: Ghost<Map<Seq<char>, Seq<Seq<char>>>>,
}

impl View for StatusStore {
    type V = Map<Seq<char>, Seq<Seq<char>>>;

    closed spec fn view(&self) -> Self::V {
        self.logs@
    }
}

impl StatusStore {
    /// Each user has one entry, and the entries hold what the view maps each user to.
    pub closed spec fn wf(&self) -> bool {
        &&& forall|i: int, j: int|
            0 <= i < j < self.entries.len() ==> self.entries[i].user@ != self.entries[j].user@
        &&& forall|i: int|
            0 <= i < self.entries.len() ==> {
                &&& self.logs@.contains_key(#[trigger] self.entries[i].user@)
                &&& self.logs@[self.entries[i].user@] == lines_view(self.entries[i].lines@)
            }
        &&& forall|k: Seq<char>|
            #[trigger] self.logs@.contains_key(k) ==> exists|i: int|
                0 <= i < self.entries.len() && self.entries[i].user@ == k
    }

    pub fn new() -> (r: StatusStore)
        ensures
            r.wf(),
            r@ == Map::<Seq<char>, Seq<Seq<char>>>::empty(),
    {
        StatusStore { entries: Vec::new(), logs: Ghost(Map::empty()) }
    }

    /// The position of the entry of `user`, if there is one.
    fn find(&self, user: &String) -> (r: Option<usize>)
        requires
            self.wf(),
        ensures
            match r {
                Some(i) => i < self.entries.len() && self.entries[i as int].user@ == user@,
                None => !self@.contains_key(user@),
            },
    {
        let mut i: usize = 0;
        while i < self.entries.len()
            invariant
                self.wf(),
                i <= self.entries.len(),
                forall|j: int| 0 <= j < i ==> self.entries[j].user@ != user@,
            decreases self.entries.len() - i,
        {
            if self.entries[i].user == *user {
                return Some(i);
            }
            i += 1;
        }
        None
    }

    /// A copy of the lines of `user`: empty where the user has none.
    pub fn get(&self, user: &String) -> (r: Vec<String>)
        requires
            self.wf(),
        ensures
            lines_view(r@) == log_of(self@, user@),
    {
        let mut out: Vec<String> = Vec::new();
        match self.find(user) {
            None => {
                assert(lines_view(out@) =~= Seq::<Seq<char>>::empty());
            },
            Some(e) => {
                let lines = &self.entries[e].lines;
                let mut i: usize = 0;
                while i < lines.len()
                    invariant
                        i <= lines.len(),
                        lines_view(out@) =~= lines_view(lines@).subrange(0, i as int),
                    decreases lines.len() - i,
                {
                    out.push(lines[i].clone());
                    proof {
                        assert(lines_view(lines@).subrange(0, i + 1) =~= lines_view(
                            lines@,
                        ).subrange(0, i as int).push(lines@[i as int]@));
                    }
                    i += 1;
                }
            },
        }
        out
    }

    /// Adds `line` after the last line of `user`, giving the user a log if it had none.
    pub fn append(&mut self, user: &String, line: String)
        requires
            old(self).wf(),
        ensures
            final(self).wf(),
            final(self)@ == old(self)@.insert(user@, log_of(old(self)@, user@).push(line@)),
    {
        let ghost new_log = log_of(self@, user@).push(line@);
        let ghost mut pos: int = self.entries.len() as int;
        match self.find(user) {
            Some(e) => {
                proof {
                    pos = e as int;
                }
                self.entries[e].lines.push(line);
                self.logs = Ghost(self.logs@.insert(user@, new_log));
                assert(lines_view(self.entries[e as int].lines@) =~= new_log);
            },
            None => {
                let mut lines: Vec<String> = Vec::new();
                lines.push(line);
                assert(lines_view(lines@) =~= new_log);
                self.entries.push(UserLog { user: user.clone(), lines });
                self.logs = Ghost(self.logs@.insert(user@, new_log));
            },
        }
        assert forall|k: Seq<char>| #[trigger] self.logs@.contains_key(k) implies exists|i: int|
            0 <= i < self.entries.len() && self.entries[i].user@ == k by {
            if k != user@ {
                assert(old(self).logs@.contains_key(k));
                let i = choose|i: int| 0 <= i < old(self).entries.len() && old(self).entries[i].user@ == k;
                assert(self.entries[i].user@ == k);
            } else {
                assert(self.entries[pos].user@ == k);
            }
        }
    }
    /// Empties the log of `user`; the user keeps an entry, with no lines.
    pub fn clear(&mut self, user: &String)
        requires
            old(self).wf(),
        ensures
            final(self).wf(),
            final(self)@ == old(self)@.insert(user@, Seq::empty()),
    {
        let ghost mut pos: int = self.entries.len() as int;
        match self.find(user) {
            Some(e) => {
                proof {
                    pos = e as int;
                }
                self.entries[e].lines.clear();
            },
            None => {
                self.entries.push(UserLog { user: user.clone(), lines: Vec::new() });
            },
        }
        self.logs = Ghost(self.logs@.insert(user@, Seq::empty()));
        assert(lines_view(self.entries[pos].lines@) =~= Seq::<Seq<char>>::empty());
        assert forall|k: Seq<char>| #[trigger] self.logs@.contains_key(k) implies exists|i: int|
            0 <= i < self.entries.len() && self.entries[i].user@ == k by {
            if k != user@ {
                assert(old(self).logs@.contains_key(k));
                let i = choose|i: int| 0 <= i < old(self).entries.len() && old(self).entries[i].user@ == k;
                assert(self.entries[i].user@ == k);
            } else {
                assert(self.entries[pos].user@ == k);
            }
        }
    }

    /// Replaces the first line of `user` equal to `old_value` by `new_value`, in place.
    /// Returns whether there was such a line; where there was none, nothing changes.
    pub fn replace_at(&mut self, user: &String, old_value: &String, new_value: String) -> (r: bool)
        requires
            old(self).wf(),
        ensures
            final(self).wf(),
            r == log_of(old(self)@, user@).contains(old_value@),
            final(self)@ == after_replace(old(self)@, user@, old_value@, new_value@),
            !r ==> final(self)@ == old(self)@,
    {
        match self.find(user) {
            None => false,
            Some(e) => {
                let ghost s = lines_view(self.entries[e as int].lines@);
                match position(&self.entries[e].lines, old_value) {
                    None => {
                        proof {
                            lemma_replace_first_absent(s, old_value@, new_value@);
                            assert(self.logs@.insert(user@, s) =~= self.logs@);
                        }
                        false
                    },
                    Some(i) => {
                        let ghost nv = new_value@;
                        self.entries[e].lines[i] = new_value;
                        proof {
                            lemma_replace_first_at(s, old_value@, nv, i as int);
                            assert(lines_view(self.entries[e as int].lines@) =~= s.update(i as int, nv));
                            assert(s.contains(old_value@)) by {
                                assert(s[i as int] == old_value@);
                            }
                        }
                        self.logs = Ghost(self.logs@.insert(user@, replace_first(s, old_value@, nv)));
                        assert forall|k: Seq<char>| #[trigger] self.logs@.contains_key(k) implies exists|j: int|
                            0 <= j < self.entries.len() && self.entries[j].user@ == k by {
                            assert(old(self).logs@.contains_key(k));
                            let j = choose|j: int| 0 <= j < old(self).entries.len() && old(self).entries[j].user@ == k;
                            assert(self.entries[j].user@ == k);
                        }
                        true
                    },
                }
            },
        }
    }

    /// Removes the first line of `user` equal to `value`, keeping the order of the others.
    /// Returns whether there was such a line; where there was none, nothing changes.
    pub fn remove_value(&mut self, user: &String, value: &String) -> (r: bool)
        requires
            old(self).wf(),
        ensures
            final(self).wf(),
            r == log_of(old(self)@, user@).contains(value@),
            final(self)@ == after_remove(old(self)@, user@, value@),
            !r ==> final(self)@ == old(self)@,
    {
        match self.find(user) {
            None => false,
            Some(e) => {
                let ghost s = lines_view(self.entries[e as int].lines@);
                match position(&self.entries[e].lines, value) {
                    None => {
                        proof {
                            lemma_remove_first_absent(s, value@);
                            assert(self.logs@.insert(user@, s) =~= self.logs@);
                        }
                        false
                    },
                    Some(i) => {
                        self.entries[e].lines.remove(i);
                        proof {
                            lemma_remove_first_at(s, value@, i as int);
                            assert(lines_view(self.entries[e as int].lines@) =~= s.remove(i as int));
                            assert(s.contains(value@)) by {
                                assert(s[i as int] == value@);
                            }
                        }
                        self.logs = Ghost(self.logs@.insert(user@, remove_first(s, value@)));
                        assert forall|k: Seq<char>| #[trigger] self.logs@.contains_key(k) implies exists|j: int|
                            0 <= j < self.entries.len() && self.entries[j].user@ == k by {
                            assert(old(self).logs@.contains_key(k));
                            let j = choose|j: int| 0 <= j < old(self).entries.len() && old(self).entries[j].user@ == k;
                            assert(self.entries[j].user@ == k);
                        }
                        true
                    },
                }
            },
        }
    }
}

/// The position of the first line equal to `v`, if there is one.
fn position(lines: &Vec<String>, v: &String) -> (r: Option<usize>)
    ensures
        match r {
            Some(i) => is_first_index(lines_view(lines@), v@, i as int),
            None => !lines_view(lines@).contains(v@),
        },
{
    let mut i: usize = 0;
    while i < lines.len()
        invariant
            i <= lines.len(),
            forall|j: int| 0 <= j < i ==> lines_view(lines@)[j] != v@,
        decreases lines.len() - i,
    {
        if lines[i] == *v {
            return Some(i);
        }
        i += 1;
    }
    None
}

} // verus!
