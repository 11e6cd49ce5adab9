use vstd::prelude::*;

verus! {

/// The callables of one worker's engine, keyed by action name. Built once when
/// the worker starts; never shared with another worker.
pub struct ActionRegistry<H> {
    entries: Vec<(String, H)>,
}

/// The table that a list of registrations gives: a later registration of a
/// name replaces an earlier one.
pub open spec fn table_of<H>(entries: Seq<(String, H)>) -> Map<Seq<char>, H>
    decreases entries.len(),
{
    if entries.len() == 0 {
        Map::empty()
    } else {
        table_of(entries.drop_last()).insert(entries.last().0@, entries.last().1)
    }
}

/// The index of the last of the first `n` registrations of `name`.
pub open spec fn last_entry<H>(entries: Seq<(String, H)>, name: Seq<char>, n: int) -> Option<int>
    decreases n,
{
    if n <= 0 {
        None
    } else if entries[n - 1].0@ == name {
        Some(n - 1)
    } else {
        last_entry(entries, name, n - 1)
    }
}

proof fn lemma_last_entry_is_table<H>(entries: Seq<(String, H)>, name: Seq<char>, n: int)
    requires
        0 <= n <= entries.len(),
    ensures
        match last_entry(entries, name, n) {
            None => !table_of(entries.take(n)).contains_key(name),
            Some(i) => 0 <= i < n && table_of(entries.take(n)).contains_key(name) && table_of(
                entries.take(n),
            )[name] == entries[i].1,
        },
    decreases n,
{
    if n > 0 {
        assert(entries.take(n).drop_last() =~= entries.take(n - 1));
        lemma_last_entry_is_table(entries, name, n - 1);
    } else {
        assert(entries.take(0) =~= Seq::<(String, H)>::empty());
    }
}

impl<H> ActionRegistry<H> {
    /// The actions registered, by name.
    pub closed spec fn table(&self) -> Map<Seq<char>, H> {
        table_of(self.entries@)
    }

    /// A registry with no actions.
    pub fn new() -> (r: Self)
        ensures
            r.table() == Map::<Seq<char>, H>::empty(),
    {
        ActionRegistry { entries: Vec::new() }
    }

    /// Registers `handle` under `name`, replacing any earlier registration.
    pub fn register(&mut self, name: String, handle: H)
        ensures
            final(self).table() == old(self).table().insert(name@, handle),
    {
        let ghost before = self.entries@;
        self.entries.push((name, handle));
        assert(self.entries@.drop_last() =~= before);
    }

    /// The callable registered under `name`, if any.
    pub fn lookup(&self, name: &str) -> (r: Option<&H>)
        ensures
            r is Some <==> self.table().contains_key(name@),
            r matches Some(h) ==> *h == self.table()[name@],
    {
        let mut n: usize = self.entries.len();
        while n > 0
            invariant
                n <= self.entries@.len(),
                last_entry(self.entries@, name@, self.entries@.len() as int) == last_entry(
                    self.entries@,
                    name@,
                    n as int,
                ),
            decreases n,
        {
            if str_eq(self.entries[n - 1].0.as_str(), name) {
                proof {
                    lemma_last_entry_is_table(self.entries@, name@, self.entries@.len() as int);
                    assert(self.entries@.take(self.entries@.len() as int) =~= self.entries@);
                }
                return Some(&self.entries[n - 1].1);
            }
            n = n - 1;
        }
        proof {
            lemma_last_entry_is_table(self.entries@, name@, self.entries@.len() as int);
            assert(self.entries@.take(self.entries@.len() as int) =~= self.entries@);
        }
        None
    }
}

/// Whether two strings hold the same characters.
pub fn str_eq(a: &str, b: &str) -> (r: bool)
    ensures
        r == (a@ == b@),
{
    let n = a.unicode_len();
    if n != b.unicode_len() {
        return false;
    }
    let mut i: usize = 0;
    while i < n
        invariant
            n == a@.len(),
            n == b@.len(),
            i <= n,
            forall|j: int| 0 <= j < i ==> a@[j] == b@[j],
        decreases n - i,
    {
        if a.get_char(i) != b.get_char(i) {
            return false;
        }
        i = i + 1;
    }
    assert(a@ =~= b@);
    true
}

/// The script evaluated once per action artifact: the artifact's code runs in
/// its own function scope, and the script's value is the global it defined
/// under the action's name.
pub fn wrap_action_source(code: &str, name: &str) -> (r: String)
    ensures
        r@ == "(function() { "@ + code@ + " })(); globalThis[\""@ + name@ + "\"];"@,
{
    let mut s = "(function() { ".to_owned();
    s.append(code);
    s.append(" })(); globalThis[\"");
    s.append(name);
    s.append("\"];");
    s
}

} // verus!
