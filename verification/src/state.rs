//! The stack of game states: the top state is the current one, states ask
//! for others to be pushed or for themselves to be popped, and the game ends
//! when the stack is empty.
use vstd::prelude::*;

verus! {

/// A change that a state asks of the stack.
pub enum StateStackRequest<S> {
    Pop,
    Push(S),
}

/// The stack of states `S`, with the state to start with.
pub struct StateStack<S> {
    initial_state: Option<S>,
    states: Vec<S>,
}

impl<S> StateStack<S> {
    /// The states, bottom first.
    pub closed spec fn stack(&self) -> Seq<S> {
        self.states@
    }

    /// The state to start with, until it is pushed.
    pub closed spec fn initial(&self) -> Option<S> {
        self.initial_state
    }

    /// An empty stack that will start with `initial_state`.
    pub fn new(initial_state: Option<S>) -> (s: Self)
        ensures
            s.stack() == Seq::<S>::empty(),
            s.initial() == initial_state,
    {
        StateStack { initial_state, states: Vec::new() }
    }

    /// Takes the state to start with, to be initialised and pushed.
    pub fn take_initial_state(&mut self) -> (s: S)
        requires
            old(self).initial() is Some,
        ensures
            s == old(self).initial()->0,
            final(self).initial() is None,
            final(self).stack() == old(self).stack(),
    {
        self.initial_state.take().unwrap()
    }

    /// Pushes an initialised state; it becomes the current one.
    pub fn push_state(&mut self, state: S)
        ensures
            final(self).stack() == old(self).stack().push(state),
            final(self).initial() == old(self).initial(),
    {
        self.states.push(state);
    }

    /// Pops the current state, if any.
    pub fn pop_state(&mut self)
        ensures
            final(self).stack() == (if old(self).stack().len() > 0 {
                old(self).stack().drop_last()
            } else {
                old(self).stack()
            }),
            final(self).initial() == old(self).initial(),
    {
        let _ = self.states.pop();
        proof {
            if old(self).stack().len() > 0 {
                assert(self.stack() =~= old(self).stack().drop_last());
            }
        }
    }

    /// The current state: the top of the stack.
    pub fn current_state(&self) -> (r: Option<&S>)
        ensures
            match r {
                Some(s) => self.stack().len() > 0 && *s == self.stack().last(),
                None => self.stack().len() == 0,
            },
    {
        if self.states.len() == 0 {
            None
        } else {
            Some(&self.states[self.states.len() - 1])
        }
    }

    /// The current state, for change.
    pub fn current_state_mut(&mut self) -> (r: Option<&mut S>)
        ensures
            match r {
                Some(s) => {
                    &&& old(self).stack().len() > 0
                    &&& *s == old(self).stack().last()
                    &&& final(self).stack() == old(self).stack().update(old(self).stack().len() - 1, *final(s))
                    &&& final(self).initial() == old(self).initial()
                },
                None => old(self).stack().len() == 0 && *final(self) == *old(self),
            },
    {
        let n = self.states.len();
        if n == 0 {
            None
        } else {
            Some(&mut self.states[n - 1])
        }
    }

    /// Whether there is no current state, which ends the game.
    pub fn should_exit(&self) -> (b: bool)
        ensures
            b == (self.stack().len() == 0),
    {
        self.states.len() == 0
    }

    /// Carries out a request: pops the current state, or pushes the given
    /// (initialised) one.
    pub fn handle_request(&mut self, request: StateStackRequest<S>)
        ensures
            final(self).initial() == old(self).initial(),
            final(self).stack() == after_request(old(self).stack(), request),
    {
        match request {
            StateStackRequest::Pop => self.pop_state(),
            StateStackRequest::Push(state) => self.push_state(state),
        }
    }

    /// Carries out the requests that a state made during its update, first
    /// to last.
    pub fn handle_requests(&mut self, requests: Vec<StateStackRequest<S>>)
        ensures
            final(self).initial() == old(self).initial(),
            final(self).stack() == after_requests(old(self).stack(), requests@),
    {
        let mut pending = requests;
        let ghost all = requests@;
        while pending.len() > 0
            invariant
                0 <= all.len() - pending.len() <= all.len(),
                pending@ == all.skip(all.len() - pending.len()),
                self.initial() == old(self).initial(),
                self.stack() == after_requests(old(self).stack(), all.take(all.len() - pending.len())),
            decreases pending.len(),
        {
            let ghost k = all.len() - pending.len();
            let request = pending.remove(0);
            proof {
                assert(request == all[k]);
                assert(all.take(k + 1).drop_last() =~= all.take(k));
                assert(pending@ =~= all.skip(k + 1));
            }
            self.handle_request(request);
        }
        proof {
            assert(all.take(all.len() as int) =~= all);
        }
    }
}

/// The stack that one request leaves: `Pop` drops the top state, if any;
/// `Push` puts the state on top.
pub open spec fn after_request<S>(stack: Seq<S>, request: StateStackRequest<S>) -> Seq<S> {
    match request {
        StateStackRequest::Pop => if stack.len() > 0 {
            stack.drop_last()
        } else {
            stack
        },
        StateStackRequest::Push(s) => stack.push(s),
    }
}

/// The stack that a list of requests leaves, carried out first to last.
pub open spec fn after_requests<S>(stack: Seq<S>, requests: Seq<StateStackRequest<S>>) -> Seq<S>
    decreases requests.len(),
{
    if requests.len() == 0 {
        stack
    } else {
        after_request(after_requests(stack, requests.drop_last()), requests.last())
    }
}

/// Pushing a state and then popping gives back the stack as it was, and
/// between the two the pushed state is the current one.
pub proof fn law_pop_undoes_push<S>(a: StateStack<S>, b: StateStack<S>, c: StateStack<S>, s: S)
    requires
        b.stack() == after_request(a.stack(), StateStackRequest::Push(s)),
        c.stack() == after_request(b.stack(), StateStackRequest::Pop),
    ensures
        b.stack().last() == s,
        c.stack() == a.stack(),
{
    assert(a.stack().push(s).drop_last() =~= a.stack());
}

/// A push puts its state on top of the stack as it was; a pop drops the
/// top state of a stack that has one and leaves an empty stack empty.
pub proof fn law_one_request<S>(stack: Seq<S>, s: S)
    ensures
        after_request(stack, StateStackRequest::Push(s)).len() == stack.len() + 1,
        after_request(stack, StateStackRequest::Push(s)).last() == s,
        after_request(stack, StateStackRequest::Push(s)).take(stack.len() as int) == stack,
        stack.len() > 0 ==> after_request(stack, StateStackRequest::<S>::Pop).len() == stack.len() - 1,
        stack.len() > 0 ==> after_request(stack, StateStackRequest::<S>::Pop) == stack.take(stack.len() - 1),
        stack.len() == 0 ==> after_request(stack, StateStackRequest::<S>::Pop) == stack,
{
    assert(stack.push(s).take(stack.len() as int) =~= stack);
    assert(stack.drop_last() =~= stack.take(stack.len() - 1));
}

/// Handling a list of requests handles every one of them, first to last:
/// no request leaves nothing; one more request is handled after those
/// before it; two lists one after the other are handled as the first list,
/// then the second.
pub proof fn law_requests_handled_in_turn<S>(
    stack: Seq<S>,
    requests: Seq<StateStackRequest<S>>,
    more: Seq<StateStackRequest<S>>,
    request: StateStackRequest<S>,
)
    ensures
        after_requests(stack, Seq::<StateStackRequest<S>>::empty()) == stack,
        after_requests(stack, seq![request]) == after_request(stack, request),
        after_requests(stack, requests.push(request)) == after_request(after_requests(stack, requests), request),
        after_requests(stack, requests + more) == after_requests(after_requests(stack, requests), more),
    decreases more.len(),
{
    assert(seq![request].drop_last() =~= Seq::<StateStackRequest<S>>::empty());
    assert(requests.push(request).drop_last() =~= requests);
    if more.len() == 0 {
        assert(requests + more =~= requests);
    } else {
        law_requests_handled_in_turn(stack, requests, more.drop_last(), request);
        assert((requests + more).drop_last() =~= requests + more.drop_last());
        assert((requests + more).last() == more.last());
    }
}

} // verus!
