//! Systems: functions run in turn on the world and on additional data, each
//! taking what the one before handed back; a step stops at the first one
//! that fails.
use vstd::prelude::*;

verus! {

/// A list of systems, run in the order they were added.
pub struct SystemBundle<S> {
    systems: Vec<S>,
}

impl<S> SystemBundle<S> {
    /// The systems, in order.
    pub closed spec fn spec_systems(&self) -> Seq<S> {
        self.systems@
    }

    /// Adds `system` after the others.
    pub fn add_system(&mut self, system: S)
        ensures
            final(self).spec_systems() == old(self).spec_systems().push(system),
    {
        self.systems.push(system);
    }

    /// The number of systems.
    pub fn system_count(&self) -> (n: usize)
        ensures
            n == self.spec_systems().len(),
    {
        self.systems.len()
    }

    /// Runs each system once, in order, each on the world and additional
    /// data that the one before handed back, starting from `world` and
    /// `additional_data`; stops at the first system that fails and returns
    /// its error with the world and data it handed back. Of the systems
    /// that ran, in order, the `i`-th was given `worlds[i]` and `datas[i]`
    /// and handed back `worlds[i + 1]`, `datas[i + 1]` and `results[i]`.
    pub fn step<T, AD, E>(&mut self, world: T, additional_data: AD) -> (r: (T, AD, Result<(), E>))
        where S: Fn(T, AD) -> (T, AD, Result<(), E>),
        requires
            forall|i: int, w: T, d: AD|
                0 <= i < old(self).spec_systems().len() ==> #[trigger] call_requires(old(self).spec_systems()[i], (w, d)),
        ensures
            final(self).spec_systems() == old(self).spec_systems(),
            exists|results: Seq<Result<(), E>>, worlds: Seq<T>, datas: Seq<AD>|
                #![trigger results.len(), worlds.len(), datas.len()]
            {
                &&& results.len() <= old(self).spec_systems().len()
                &&& worlds.len() == results.len() + 1
                &&& datas.len() == results.len() + 1
                &&& worlds[0] == world
                &&& datas[0] == additional_data
                &&& worlds.last() == r.0
                &&& datas.last() == r.1
                &&& forall|i: int|
                    #![trigger results[i]]
                    0 <= i < results.len() ==> call_ensures(
                        old(self).spec_systems()[i],
                        (worlds[i], datas[i]),
                        (worlds[i + 1], datas[i + 1], results[i]),
                    )
                &&& forall|i: int| #![trigger results[i]] 0 <= i < results.len() - 1 ==> results[i] is Ok
                &&& r.2 is Ok ==> results.len() == old(self).spec_systems().len() && (results.len() > 0
                    ==> results.last() is Ok)
                &&& r.2 is Err ==> results.len() > 0 && results.last() == r.2
            },
    {
        let ghost results: Seq<Result<(), E>> = Seq::empty();
        let ghost worlds: Seq<T> = seq![world];
        let ghost datas: Seq<AD> = seq![additional_data];
        let mut current_world = world;
        let mut current_data = additional_data;
        let mut i: usize = 0;
        while i < self.systems.len()
            invariant
                i <= self.systems@.len(),
                self.systems@ == old(self).spec_systems(),
                forall|j: int, w: T, d: AD|
                    0 <= j < self.systems@.len() ==> #[trigger] call_requires(self.systems@[j], (w, d)),
                results.len() == i,
                worlds.len() == i + 1,
                datas.len() == i + 1,
                worlds.last() == current_world,
                datas.last() == current_data,
                worlds[0] == world,
                datas[0] == additional_data,
                forall|j: int|
                    #![trigger results[j]]
                    0 <= j < results.len() ==> call_ensures(
                        self.systems@[j],
                        (worlds[j], datas[j]),
                        (worlds[j + 1], datas[j + 1], results[j]),
                    ),
                forall|j: int| #![trigger results[j]] 0 <= j < results.len() ==> results[j] is Ok,
            decreases self.systems@.len() - i,
        {
            let ghost w0 = worlds;
            let ghost d0 = datas;
            let ghost r0 = results;
            let (next_world, next_data, res) = (self.systems[i])(current_world, current_data);
            proof {
                worlds = w0.push(next_world);
                datas = d0.push(next_data);
                results = r0.push(res);
                assert forall|j: int|
                    #![trigger results[j]]
                    0 <= j < results.len() implies call_ensures(
                        self.systems@[j],
                        (worlds[j], datas[j]),
                        (worlds[j + 1], datas[j + 1], results[j]),
                    ) by {
                    assert(worlds[j] == w0[j] && datas[j] == d0[j]);
                    if j < i {
                        assert(results[j] == r0[j]);
                        assert(worlds[j + 1] == w0[j + 1] && datas[j + 1] == d0[j + 1]);
                    }
                }
                assert forall|j: int| #![trigger results[j]] 0 <= j < results.len() - 1 implies results[j] is Ok by {
                    assert(results[j] == r0[j]);
                }
                assert(worlds[0] == w0[0] && datas[0] == d0[0]);
            }
            current_world = next_world;
            current_data = next_data;
            match res {
                Ok(()) => {},
                Err(e) => {
                    assert(results.last() == Err::<(), E>(e));
                    assert(worlds.len() == results.len() + 1 && datas.len() == results.len() + 1);
                    assert(worlds.last() == current_world && datas.last() == current_data);
                    return (current_world, current_data, Err(e));
                },
            }
            i = i + 1;
        }
        proof {
            if results.len() > 0 {
                assert(results[results.len() - 1] is Ok);
            }
        }
        (current_world, current_data, Ok(()))
    }
}

impl<S> Default for SystemBundle<S> {
    /// No systems.
    fn default() -> (b: Self)
        ensures
            b.spec_systems().len() == 0,
    {
        SystemBundle { systems: Vec::new() }
    }
}

} // verus!
