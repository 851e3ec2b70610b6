//! The environment: a stack of frames, each a map from names to values.

use vstd::prelude::*;
use std::collections::VecDeque;
use vstd::std_specs::vecdeque::VecDequeAdditionalSpecFns;
use crate::variable::{Value, Variable};

verus! {

/// Mathematical model of an environment: its frames, the most recently pushed one last,
/// each a map from names to values.
pub type Env = Seq<Map<Seq<char>, Value>>;

/// The nearest binding of `name`: that of the last frame that binds it.
pub open spec fn env_lookup(env: Env, name: Seq<char>) -> Option<Value>
    decreases env.len(),
{
    if env.len() == 0 {
        None
    } else if env.last().contains_key(name) {
        Some(env.last()[name])
    } else {
        env_lookup(env.drop_last(), name)
    }
}

/// The environment with `name` bound to `value` in its last frame.
pub open spec fn env_insert(env: Env, name: Seq<char>, value: Value) -> Env {
    if env.len() == 0 {
        env
    } else {
        env.update(env.len() - 1, env.last().insert(name, value))
    }
}

/// The environment with one more frame, which binds nothing.
pub open spec fn env_push(env: Env) -> Env {
    env.push(Map::empty())
}

/// The environment without its last frame; an environment of one frame is left as it is.
pub open spec fn env_pop(env: Env) -> Env {
    if env.len() >= 2 {
        env.drop_last()
    } else {
        env
    }
}

/// One binding of a frame.
#[derive(Debug)]
struct Binding {
    name: String,
    value: Variable,
}

/// The map that a list of bindings stands for. A later binding of a name hides an
/// earlier one.
spec fn bindings_view(bindings: Seq<Binding>) -> Map<Seq<char>, Value>
    decreases bindings.len(),
{
    if bindings.len() == 0 {
        Map::empty()
    } else {
        bindings_view(bindings.drop_last()).insert(bindings.last().name@, bindings.last().value@)
    }
}

/// No name is bound twice.
spec fn distinct_names(bindings: Seq<Binding>) -> bool {
    forall|i: int, j: int|
        0 <= i < j < bindings.len() ==> (#[trigger] bindings[i]).name@ != (#[trigger] bindings[j]).name@
}

proof fn lemma_domain(bindings: Seq<Binding>, name: Seq<char>)
    ensures
        bindings_view(bindings).contains_key(name) <==> exists|i: int|
            0 <= i < bindings.len() && (#[trigger] bindings[i]).name@ == name,
    decreases bindings.len(),
{
    if bindings.len() > 0 {
        let front = bindings.drop_last();
        lemma_domain(front, name);
        if bindings_view(bindings).contains_key(name) {
            if bindings.last().name@ == name {
                assert(bindings[bindings.len() - 1].name@ == name);
            } else {
                let i = choose|i: int| 0 <= i < front.len() && (#[trigger] front[i]).name@ == name;
                assert(bindings[i].name@ == name);
            }
        }
        if exists|i: int| 0 <= i < bindings.len() && (#[trigger] bindings[i]).name@ == name {
            let i = choose|i: int| 0 <= i < bindings.len() && (#[trigger] bindings[i]).name@ == name;
            if i < bindings.len() - 1 {
                assert(front[i].name@ == name);
            }
        }
    }
}

proof fn lemma_value(bindings: Seq<Binding>, i: int)
    requires
        distinct_names(bindings),
        0 <= i < bindings.len(),
    ensures
        bindings_view(bindings).contains_key(bindings[i].name@),
        bindings_view(bindings)[bindings[i].name@] == bindings[i].value@,
    decreases bindings.len(),
{
    if i < bindings.len() - 1 {
        let front = bindings.drop_last();
        assert(front[i] == bindings[i]);
        assert(distinct_names(front)) by {
            assert forall|a: int, b: int| 0 <= a < b < front.len() implies (#[trigger] front[a]).name@
                != (#[trigger] front[b]).name@ by {
                assert(front[a] == bindings[a]);
                assert(front[b] == bindings[b]);
            }
        }
        lemma_value(front, i);
        assert(bindings[i].name@ != bindings[bindings.len() - 1].name@);
    }
}

proof fn lemma_update(bindings: Seq<Binding>, i: int, binding: Binding)
    requires
        distinct_names(bindings),
        0 <= i < bindings.len(),
        binding.name@ == bindings[i].name@,
    ensures
        distinct_names(bindings.update(i, binding)),
        bindings_view(bindings.update(i, binding)) == bindings_view(bindings).insert(
            binding.name@,
            binding.value@,
        ),
    decreases bindings.len(),
{
    let updated = bindings.update(i, binding);
    assert(distinct_names(updated)) by {
        assert forall|a: int, b: int| 0 <= a < b < updated.len() implies (#[trigger] updated[a]).name@
            != (#[trigger] updated[b]).name@ by {
            assert(updated[a].name@ == bindings[a].name@);
            assert(updated[b].name@ == bindings[b].name@);
        }
    }
    let front = bindings.drop_last();
    if i == bindings.len() - 1 {
        assert(updated.drop_last() =~= front);
        assert(bindings_view(updated) =~= bindings_view(bindings).insert(
            binding.name@,
            binding.value@,
        ));
    } else {
        assert(front[i] == bindings[i]);
        assert(distinct_names(front)) by {
            assert forall|a: int, b: int| 0 <= a < b < front.len() implies (#[trigger] front[a]).name@
                != (#[trigger] front[b]).name@ by {
                assert(front[a] == bindings[a]);
                assert(front[b] == bindings[b]);
            }
        }
        lemma_update(front, i, binding);
        assert(updated.drop_last() =~= front.update(i, binding));
        assert(updated.last() == bindings.last());
        assert(bindings[i].name@ != bindings[bindings.len() - 1].name@);
        assert(bindings_view(updated) =~= bindings_view(bindings).insert(
            binding.name@,
            binding.value@,
        ));
    }
}

proof fn lemma_push(bindings: Seq<Binding>, binding: Binding)
    requires
        distinct_names(bindings),
        !bindings_view(bindings).contains_key(binding.name@),
    ensures
        distinct_names(bindings.push(binding)),
        bindings_view(bindings.push(binding)) == bindings_view(bindings).insert(
            binding.name@,
            binding.value@,
        ),
{
    let pushed = bindings.push(binding);
    assert(pushed.drop_last() =~= bindings);
    lemma_domain(bindings, binding.name@);
    assert forall|a: int, b: int| 0 <= a < b < pushed.len() implies (#[trigger] pushed[a]).name@
        != (#[trigger] pushed[b]).name@ by {
        assert(pushed[a] == bindings[a]);
        if b < bindings.len() {
            assert(pushed[b] == bindings[b]);
        }
    }
}

/// Two lists bind the same names to the same values, in the same order.
spec fn same_bindings(a: Seq<Binding>, b: Seq<Binding>) -> bool {
    &&& a.len() == b.len()
    &&& forall|k: int|
        0 <= k < a.len() ==> (#[trigger] a[k]).name@ == b[k].name@ && a[k].value@ == b[k].value@
}

proof fn lemma_same_bindings(a: Seq<Binding>, b: Seq<Binding>)
    requires
        same_bindings(a, b),
    ensures
        bindings_view(a) == bindings_view(b),
        distinct_names(b) ==> distinct_names(a),
    decreases a.len(),
{
    if a.len() > 0 {
        assert(a.last().name@ == b.last().name@ && a.last().value@ == b.last().value@) by {
            assert(a[a.len() - 1].name@ == b[a.len() - 1].name@);
        }
        assert(same_bindings(a.drop_last(), b.drop_last())) by {
            assert forall|k: int| 0 <= k < a.drop_last().len() implies (#[trigger] a.drop_last()[k]).name@
                == b.drop_last()[k].name@ && a.drop_last()[k].value@ == b.drop_last()[k].value@ by {
                assert(a[k].name@ == b[k].name@);
            }
        }
        lemma_same_bindings(a.drop_last(), b.drop_last());
    }
    if distinct_names(b) {
        assert forall|i: int, j: int| 0 <= i < j < a.len() implies (#[trigger] a[i]).name@ != (
        #[trigger] a[j]).name@ by {
            assert(a[i].name@ == b[i].name@);
            assert(a[j].name@ == b[j].name@);
            assert(b[i].name@ != b[j].name@);
        }
    }
}

/// Where `name` is bound in a frame, if it is.
fn find(bindings: &Vec<Binding>, name: &String) -> (found: Option<usize>)
    ensures
        match found {
            Some(i) => i < bindings.len() && bindings[i as int].name@ == name@,
            None => !bindings_view(bindings@).contains_key(name@),
        },
{
    let mut i: usize = 0;
    while i < bindings.len()
        invariant
            i <= bindings.len(),
            forall|j: int| 0 <= j < i ==> (#[trigger] bindings[j]).name@ != name@,
        decreases bindings.len() - i,
    {
        if bindings[i].name == *name {
            return Some(i);
        }
        i += 1;
    }
    proof {
        lemma_domain(bindings@, name@);
    }
    None
}

/// The environment: a stack of frames that is never empty.
#[derive(Debug)]
pub struct Vars {
    vars: VecDeque<Vec<Binding>>,
}

impl View for Vars {
    type V = Env;

    closed spec fn view(&self) -> Env {
        Seq::new(self.vars.len() as nat, |i: int| bindings_view(self.vars[i]@))
    }
}

impl Vars {
    /// The representation is valid: there is at least one frame, and no frame binds a
    /// name twice.
    pub closed spec fn wf(&self) -> bool {
        &&& self.vars.len() >= 1
        &&& forall|i: int| 0 <= i < self.vars.len() ==> distinct_names((#[trigger] self.vars[i])@)
    }

    /// A valid environment has at least one frame.
    pub proof fn lemma_never_empty(&self)
        requires
            self.wf(),
        ensures
            self@.len() >= 1,
    {
    }

    /// An environment of one frame, which binds nothing.
    pub fn new() -> (vars: Vars)
        ensures
            vars.wf(),
            vars@ == seq![Map::<Seq<char>, Value>::empty()],
    {
        let mut list: VecDeque<Vec<Binding>> = VecDeque::new();
        list.push_back(Vec::new());
        let vars = Vars { vars: list };
        assert(vars@ =~= seq![Map::<Seq<char>, Value>::empty()]);
        vars
    }

    /// The number of frames.
    pub fn depth(&self) -> (depth: usize)
        ensures
            depth == self@.len(),
    {
        self.vars.len()
    }

    /// Adds a frame that binds nothing.
    pub fn push(&mut self)
        requires
            old(self).wf(),
        ensures
            final(self).wf(),
            final(self)@ == env_push(old(self)@),
    {
        self.vars.push_back(Vec::new());
        assert(self@ =~= env_push(old(self)@));
    }

    /// Discards the newest frame, unless it is the only one: the environment is never
    /// left without a frame.
    pub fn pop(&mut self)
        requires
            old(self).wf(),
        ensures
            final(self).wf(),
            final(self)@ == env_pop(old(self)@),
    {
        if self.vars.len() >= 2 {
            self.vars.pop_back();
            assert(self@ =~= env_pop(old(self)@));
        }
    }

    /// Binds `id` to `data` in the newest frame, in place of what that frame bound it to
    /// before. No other frame changes.
    pub fn insert(&mut self, id: String, data: Variable)
        requires
            old(self).wf(),
        ensures
            final(self).wf(),
            final(self)@ == env_insert(old(self)@, id@, data@),
    {
        let mut m = self.vars.pop_back().unwrap();
        let found = find(&m, &id);
        let binding = Binding { name: id, value: data };
        match found {
            Some(i) => {
                proof {
                    lemma_update(m@, i as int, binding);
                }
                m.set(i, binding);
            },
            None => {
                proof {
                    lemma_push(m@, binding);
                }
                m.push(binding);
            },
        }
        self.vars.push_back(m);
        assert(self@ =~= env_insert(old(self)@, id@, data@));
    }

    /// The nearest binding of `id`: the newest frame that binds it decides. `None` where
    /// no frame binds it.
    pub fn get(&self, id: &str) -> (found: Option<&Variable>)
        requires
            self.wf(),
        ensures
            match found {
                Some(value) => env_lookup(self@, id@) == Some(value@),
                None => env_lookup(self@, id@) is None,
            },
    {
        let name = id.to_owned();
        let mut n: usize = self.vars.len();
        assert(self@.take(n as int) =~= self@);
        while n > 0
            invariant
                self.wf(),
                n <= self.vars.len(),
                name@ == id@,
                env_lookup(self@, id@) == env_lookup(self@.take(n as int), id@),
            decreases n,
        {
            let frame = &self.vars[n - 1];
            proof {
                assert(self@.take(n as int).drop_last() =~= self@.take(n - 1));
                assert(self@.take(n as int).last() == bindings_view(frame@));
            }
            match find(frame, &name) {
                Some(i) => {
                    proof {
                        lemma_value(frame@, i as int);
                    }
                    return Some(&frame[i].value);
                },
                None => {},
            }
            n -= 1;
        }
        None
    }
}

impl Clone for Vars {
    /// A deep copy, with the same model.
    fn clone(&self) -> (copy: Self)
        ensures
            self.wf() ==> copy.wf(),
            copy@ == self@,
    {
        let mut frames: VecDeque<Vec<Binding>> = VecDeque::new();
        let mut i: usize = 0;
        while i < self.vars.len()
            invariant
                i <= self.vars.len(),
                frames.len() == i,
                forall|k: int| 0 <= k < i ==> same_bindings((#[trigger] frames[k])@, self.vars[k]@),
            decreases self.vars.len() - i,
        {
            let frame = &self.vars[i];
            let mut bindings: Vec<Binding> = Vec::new();
            let mut j: usize = 0;
            while j < frame.len()
                invariant
                    j <= frame.len(),
                    bindings.len() == j,
                    forall|k: int|
                        0 <= k < j ==> (#[trigger] bindings[k]).name@ == frame[k].name@
                            && bindings[k].value@ == frame[k].value@,
                decreases frame.len() - j,
            {
                bindings.push(Binding { name: frame[j].name.clone(), value: frame[j].value.clone() });
                j += 1;
            }
            frames.push_back(bindings);
            i += 1;
        }
        let copy = Vars { vars: frames };
        proof {
            assert forall|k: int| 0 <= k < copy.vars.len() implies bindings_view(copy.vars[k]@)
                == bindings_view(self.vars[k]@) by {
                lemma_same_bindings(copy.vars[k]@, self.vars[k]@);
            }
            assert(copy@ =~= self@);
            if self.wf() {
                assert forall|k: int| 0 <= k < copy.vars.len() implies distinct_names(
                    (#[trigger] copy.vars[k])@,
                ) by {
                    lemma_same_bindings(copy.vars[k]@, self.vars[k]@);
                    assert(distinct_names(self.vars[k]@));
                }
            }
        }
        copy
    }
}

} // verus!
