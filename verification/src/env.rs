//! Environment variables handed to Wine, Proton and the tools run through them.

use vstd::prelude::*;
use crate::text::{str_eq, string_of};

verus! {

/// The position of the first variable from position `i` on named `k`.
pub open spec fn env_index(s: Seq<(Seq<char>, Seq<char>)>, k: Seq<char>, i: int) -> Option<int>
    decreases s.len() - i,
{
    if i < 0 || i >= s.len() {
        None
    } else if s[i].0 == k {
        Some(i)
    } else {
        env_index(s, k, i + 1)
    }
}

/// Setting variable `k` to `v`: its value is replaced where it is already set, otherwise it is
/// added at the end.
pub open spec fn env_insert(s: Seq<(Seq<char>, Seq<char>)>, k: Seq<char>, v: Seq<char>) -> Seq<
    (Seq<char>, Seq<char>),
> {
    match env_index(s, k, 0) {
        Some(i) => s.update(i, (k, v)),
        None => s.push((k, v)),
    }
}

/// The value of variable `k`, if it is set.
pub open spec fn env_get(s: Seq<(Seq<char>, Seq<char>)>, k: Seq<char>) -> Option<Seq<char>> {
    match env_index(s, k, 0) {
        Some(i) => Some(s[i].1),
        None => None,
    }
}

/// Setting every variable of `t`, in order, on top of `s`.
pub open spec fn env_extend(s: Seq<(Seq<char>, Seq<char>)>, t: Seq<(Seq<char>, Seq<char>)>) -> Seq<
    (Seq<char>, Seq<char>),
>
    decreases t.len(),
{
    if t.len() == 0 {
        s
    } else {
        env_insert(env_extend(s, t.drop_last()), t.last().0, t.last().1)
    }
}

/// No variable is set twice.
pub open spec fn env_wf(s: Seq<(Seq<char>, Seq<char>)>) -> bool {
    forall|i: int, j: int| 0 <= i < j < s.len() ==> s[i].0 != s[j].0
}

/// The views of a list of name/value pairs.
pub open spec fn pairs_view(v: Seq<(String, String)>) -> Seq<(Seq<char>, Seq<char>)> {
    v.map_values(|e: (String, String)| (e.0@, e.1@))
}

/// `env_index` finds the first variable named `k` from `i` on, if there is one.
pub proof fn lemma_env_index(s: Seq<(Seq<char>, Seq<char>)>, k: Seq<char>, i: int)
    requires
        0 <= i,
    ensures
        match env_index(s, k, i) {
            Some(m) => i <= m < s.len() && s[m].0 == k && forall|j: int|
                i <= j < m ==> #[trigger] s[j].0 != k,
            None => forall|j: int| i <= j < s.len() ==> #[trigger] s[j].0 != k,
        },
    decreases s.len() - i,
{
    if i < s.len() && s[i].0 != k {
        lemma_env_index(s, k, i + 1);
    }
}

/// Environment variables for a child process, each name set once, in the order they were
/// first set.
#[derive(Debug)]
pub struct EnvVars {
    entries: Vec<(String, String)>,
}

impl View for EnvVars {
    type V = Seq<(Seq<char>, Seq<char>)>;

    closed spec fn view(&self) -> Seq<(Seq<char>, Seq<char>)> {
        pairs_view(self.entries@)
    }
}

impl EnvVars {
    /// No variables set.
    pub fn new() -> (r: EnvVars)
        ensures
            r@ == Seq::<(Seq<char>, Seq<char>)>::empty(),
    {
        let r = EnvVars { entries: Vec::new() };
        assert(r@ =~= Seq::<(Seq<char>, Seq<char>)>::empty());
        r
    }

    /// Sets variable `k` to `v`.
    pub fn insert(&mut self, k: &str, v: &str)
        ensures
            final(self)@ == env_insert(old(self)@, k@, v@),
    {
        let ghost old_view = self@;
        proof {
            lemma_env_index(old_view, k@, 0);
        }
        let mut i: usize = 0;
        while i < self.entries.len()
            invariant
                i <= self.entries@.len(),
                self.entries@ == old(self).entries@,
                old_view == pairs_view(self.entries@),
                forall|j: int| 0 <= j < i ==> (#[trigger] old_view[j]).0 != k@,
            decreases self.entries.len() - i,
        {
            if str_eq(self.entries[i].0.as_str(), k) {
                proof {
                    lemma_env_index(old_view, k@, 0);
                    assert(old_view[i as int].0 == k@);
                    assert(env_index(old_view, k@, 0) == Some(i as int)) by {
                        match env_index(old_view, k@, 0) {
                            Some(m) => {
                                assert(!(m < i));
                                assert(!(m > i));
                            },
                            None => {},
                        }
                    }
                }
                self.entries.set(i, (string_of(k), string_of(v)));
                proof {
                    assert(self@ =~= old_view.update(i as int, (k@, v@)));
                }
                return;
            }
            i = i + 1;
        }
        self.entries.push((string_of(k), string_of(v)));
        assert(self@ =~= old_view.push((k@, v@)));
    }

    /// The value of variable `k`, if it is set.
    pub fn get(&self, k: &str) -> (r: Option<&String>)
        ensures
            match env_get(self@, k@) {
                Some(v) => r matches Some(s) && s@ == v,
                None => r is None,
            },
    {
        proof {
            lemma_env_index(self@, k@, 0);
        }
        let mut i: usize = 0;
        while i < self.entries.len()
            invariant
                i <= self.entries@.len(),
                self@ == pairs_view(self.entries@),
                forall|j: int| 0 <= j < i ==> (#[trigger] self@[j]).0 != k@,
            decreases self.entries.len() - i,
        {
            if str_eq(self.entries[i].0.as_str(), k) {
                proof {
                    lemma_env_index(self@, k@, 0);
                    assert(self@[i as int].0 == k@);
                    assert(env_index(self@, k@, 0) == Some(i as int)) by {
                        match env_index(self@, k@, 0) {
                            Some(m) => {
                                assert(!(m < i));
                                assert(!(m > i));
                            },
                            None => {},
                        }
                    }
                }
                return Some(&self.entries[i].1);
            }
            i = i + 1;
        }
        None
    }

    /// Sets every variable of `other`, in order (`HashMap::extend`).
    pub fn extend(&mut self, other: &EnvVars)
        ensures
            final(self)@ == env_extend(old(self)@, other@),
    {
        let n = other.entries.len();
        for i in 0..n
            invariant
                n == other.entries@.len(),
                other@ == pairs_view(other.entries@),
                self@ == env_extend(old(self)@, other@.take(i as int)),
        {
            proof {
                assert(other@.take(i + 1).drop_last() =~= other@.take(i as int));
                assert(other@.take(i + 1).last() == other@[i as int]);
            }
            let (k, v) = (&other.entries[i].0, &other.entries[i].1);
            self.insert(k.as_str(), v.as_str());
        }
        assert(other@.take(n as int) =~= other@);
    }

    /// The variables as name/value pairs, in order.
    pub fn pairs(&self) -> (r: &Vec<(String, String)>)
        ensures
            pairs_view(r@) == self@,
    {
        &self.entries
    }

    /// How many variables are set.
    pub fn len(&self) -> (r: usize)
        ensures
            r == self@.len(),
    {
        self.entries.len()
    }
}

/// After setting `k` to `v`, `k` reads back as `v`.
pub proof fn lemma_insert_get_same(s: Seq<(Seq<char>, Seq<char>)>, k: Seq<char>, v: Seq<char>)
    ensures
        env_get(env_insert(s, k, v), k) == Some(v),
{
    lemma_env_index(s, k, 0);
    let t = env_insert(s, k, v);
    lemma_env_index(t, k, 0);
    match env_index(s, k, 0) {
        Some(m) => {
            assert(t[m].0 == k);
            match env_index(t, k, 0) {
                Some(n) => {
                    assert(!(n < m));
                    assert(!(n > m));
                },
                None => {},
            }
        },
        None => {
            assert(t[s.len() as int].0 == k);
            match env_index(t, k, 0) {
                Some(n) => {
                    assert(!(n < s.len()));
                },
                None => {},
            }
        },
    }
}

/// Setting `k` leaves every other variable as it was.
pub proof fn lemma_insert_get_other(
    s: Seq<(Seq<char>, Seq<char>)>,
    k: Seq<char>,
    v: Seq<char>,
    other: Seq<char>,
)
    requires
        other != k,
    ensures
        env_get(env_insert(s, k, v), other) == env_get(s, other),
{
    lemma_env_index(s, k, 0);
    lemma_env_index(s, other, 0);
    let t = env_insert(s, k, v);
    lemma_env_index(t, other, 0);
    assert forall|j: int| 0 <= j < s.len() implies (#[trigger] t[j]).0 == other <==> s[j].0
        == other by {}
    match env_index(s, other, 0) {
        Some(m) => {
            assert(t[m].0 == other);
            match env_index(t, other, 0) {
                Some(n) => {
                    assert(!(n < m));
                    assert(!(n > m));
                    assert(t[m] == s[m]);
                },
                None => {},
            }
        },
        None => {
            match env_index(t, other, 0) {
                Some(n) => {
                    assert(n < s.len());
                },
                None => {},
            }
        },
    }
}

/// Setting a variable keeps every name set at most once.
pub proof fn lemma_insert_wf(s: Seq<(Seq<char>, Seq<char>)>, k: Seq<char>, v: Seq<char>)
    requires
        env_wf(s),
    ensures
        env_wf(env_insert(s, k, v)),
{
    lemma_env_index(s, k, 0);
    let t = env_insert(s, k, v);
    assert forall|i: int, j: int| 0 <= i < j < t.len() implies t[i].0 != t[j].0 by {
        match env_index(s, k, 0) {
            Some(m) => {
                if i == m {
                    assert(s[j].0 != s[m].0);
                } else if j == m {
                    assert(s[i].0 != s[m].0);
                }
            },
            None => {
                if j == s.len() {
                    assert(s[i].0 != k);
                }
            },
        }
    }
}

} // verus!
