use vstd::prelude::*;
use crate::errors::EngineError;
use crate::value::Value;

verus! {

/// The map described by an association list, later entries winning.
pub open spec fn map_of_entries<V>(s: Seq<(char, V)>) -> Map<char, V>
    decreases s.len(),
{
    if s.len() == 0 {
        Map::empty()
    } else {
        map_of_entries(s.drop_last()).insert(s.last().0, s.last().1)
    }
}

/// The domain of the entry map is exactly the set of listed names, and with
/// pairwise distinct names each name maps to its listed value.
pub(crate) proof fn lemma_map_of_entries<V>(s: Seq<(char, V)>, c: char)
    ensures
        map_of_entries(s).contains_key(c) <==> (exists|i: int|
            0 <= i < s.len() && (#[trigger] s[i]).0 == c),
        (forall|i: int, j: int|
            0 <= i < j < s.len() ==> (#[trigger] s[i]).0 != (#[trigger] s[j]).0) ==> forall|i: int|
            0 <= i < s.len() && (#[trigger] s[i]).0 == c ==> map_of_entries(s)[c] == s[i].1,
    decreases s.len(),
{
    if s.len() > 0 {
        lemma_map_of_entries::<V>(s.drop_last(), c);
        assert(forall|i: int|
            0 <= i < s.len() - 1 ==> #[trigger] s.drop_last()[i] == s[i]);
        if map_of_entries(s).contains_key(c) {
            if s.last().0 == c {
                assert(s[s.len() - 1].0 == c);
            }
        }
        if exists|i: int| 0 <= i < s.len() && (#[trigger] s[i]).0 == c {
            let i = choose|i: int| 0 <= i < s.len() && (#[trigger] s[i]).0 == c;
            if i < s.len() - 1 {
                assert(s.drop_last()[i].0 == c);
            }
        }
    }
}

/// The last entry listed for a name decides what the entry map binds it to.
pub(crate) proof fn lemma_map_of_entries_last<V>(s: Seq<(char, V)>, c: char, j: int)
    requires
        0 <= j < s.len(),
        s[j].0 == c,
        forall|k: int| j < k < s.len() ==> (#[trigger] s[k]).0 != c,
    ensures
        map_of_entries(s).contains_key(c),
        map_of_entries(s)[c] == s[j].1,
    decreases s.len(),
{
    if j < s.len() - 1 {
        assert(forall|i: int|
            0 <= i < s.len() - 1 ==> #[trigger] s.drop_last()[i] == s[i]);
        lemma_map_of_entries_last::<V>(s.drop_last(), c, j);
    }
}

/// Binding of single-character parameter names to numeric values.
///
/// An environment is built afresh for every match or instantiation; a name
/// may be defined at most once, and redefinition is reported as an error.
/// The view of an environment is the map from names to values.
pub struct Environment {
    entries: Vec<(char, Value)>,
}

impl View for Environment {
    type V = Map<char, Value>;

    closed spec fn view(&self) -> Map<char, Value> {
        map_of_entries(self.entries@)
    }
}

impl Environment {
    /// Parameter names are pairwise distinct.
    pub closed spec fn well_formed(self) -> bool {
        forall|i: int, j: int|
            0 <= i < j < self.entries@.len() ==> (#[trigger] self.entries@[i]).0 != (
            #[trigger] self.entries@[j]).0
    }

    /// A fresh environment with no bindings.
    pub fn new() -> (r: Environment)
        ensures
            r@ == Map::<char, Value>::empty(),
            r.well_formed(),
    {
        Environment { entries: Vec::new() }
    }

    /// Whether the given name has a binding.
    pub fn has_parameter(&self, param: char) -> (r: bool)
        ensures
            r == self@.contains_key(param),
    {
        proof {
            lemma_map_of_entries(self.entries@, param);
        }
        let n = self.entries.len();
        let mut i: usize = 0;
        while i < n
            invariant
                i <= n,
                n == self.entries@.len(),
                forall|k: int| 0 <= k < i ==> (#[trigger] self.entries@[k]).0 != param,
                self@.contains_key(param) <==> (exists|k: int|
                    0 <= k < n && (#[trigger] self.entries@[k]).0 == param),
            decreases n - i,
        {
            if self.entries[i].0 == param {
                return true;
            }
            i = i + 1;
        }
        false
    }

    /// The value bound to the given name.
    pub fn get_parameter_value(&self, param: char) -> (r: Value)
        requires
            self.well_formed(),
            self@.contains_key(param),
        ensures
            r == self@[param],
    {
        proof {
            lemma_map_of_entries(self.entries@, param);
        }
        let n = self.entries.len();
        let mut i: usize = 0;
        while i < n
            invariant
                i <= n,
                n == self.entries@.len(),
                forall|k: int| 0 <= k < i ==> (#[trigger] self.entries@[k]).0 != param,
                forall|k: int|
                    0 <= k < n && (#[trigger] self.entries@[k]).0 == param ==> self@[param]
                        == self.entries@[k].1,
                exists|k: int| 0 <= k < n && (#[trigger] self.entries@[k]).0 == param,
            decreases n - i,
        {
            if self.entries[i].0 == param {
                return self.entries[i].1;
            }
            i = i + 1;
        }
        proof {
            assert(false);
        }
        Value::zero()
    }

    /// Bind a name to a value; a name already bound is a redefinition error
    /// and leaves the environment unchanged.
    pub fn define_parameter(&mut self, param: char, value: Value) -> (r: Result<(), EngineError>)
        requires
            old(self).well_formed(),
        ensures
            final(self).well_formed(),
            old(self)@.contains_key(param) ==> r == Result::<(), EngineError>::Err(
                EngineError::ParameterRedefinition(param),
            ) && final(self)@ == old(self)@,
            !old(self)@.contains_key(param) ==> r == Result::<(), EngineError>::Ok(())
                && final(self)@ == old(self)@.insert(param, value),
    {
        if self.has_parameter(param) {
            Err(EngineError::ParameterRedefinition(param))
        } else {
            proof {
                lemma_map_of_entries(self.entries@, param);
            }
            let ghost pre = self.entries@;
            self.entries.push((param, value));
            proof {
                assert(self.entries@.drop_last() =~= pre);
            }
            Ok(())
        }
    }
}

} // verus!
